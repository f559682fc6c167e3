//! Readers for the CKB transaction molecule schema.

use vstd::prelude::*;

use super::support::{
    field_byte32, field_raw_bytes, field_u32, field_u64, field_u8, le32, le64, Cursor, CursorView, Error,
};

verus! {

/// The window `[start, start + size)` of a fixed-size struct, when the struct holds it.
pub open spec fn spec_struct_slice(c: CursorView, start: int, size: int) -> Option<CursorView> {
    if start + size <= c.size && c.offset + start <= usize::MAX {
        Some(c.window(start, size))
    } else {
        None
    }
}

/// The `Uint64` at `start` of a struct.
pub open spec fn spec_struct_u64(c: CursorView, start: int) -> Option<int> {
    match spec_struct_slice(c, start, 8) {
        Some(f) => if f.leading_bytes(8) { Some(le64(f.data, f.offset)) } else { None },
        None => None,
    }
}

/// The `Uint32` at `start` of a struct.
pub open spec fn spec_struct_u32(c: CursorView, start: int) -> Option<int> {
    match spec_struct_slice(c, start, 4) {
        Some(f) => if f.leading_bytes(4) { Some(le32(f.data, f.offset)) } else { None },
        None => None,
    }
}

/// A well-formed `Script`.
pub open spec fn spec_valid_script(c: CursorView, compatible: bool) -> bool {
    c.valid_table(3, compatible)
    && field_byte32(c, 0) is Some
}

/// A CKB script: code hash, hash type and arguments.
#[derive(Clone, Debug)]
pub struct Script {
    pub cursor: Cursor,
}

impl Script {
    pub fn from_cursor(cursor: Cursor) -> (res: Self)
        ensures
            res.cursor@ == cursor@,
    {
        Script { cursor }
    }

    pub fn code_hash(&self) -> (res: Result<[u8; 32], Error>)
        ensures
            res is Ok <==> field_byte32(self.cursor@, 0) is Some,
            res matches Ok(v) ==> field_byte32(self.cursor@, 0) == Some(v@),
    {
        let cur = self.cursor.table_slice_by_index(0)?;
        cur.read_byte32()
    }

    pub fn hash_type(&self) -> (res: Result<u8, Error>)
        ensures
            res is Ok <==> field_u8(self.cursor@, 1) is Some,
            res matches Ok(v) ==> field_u8(self.cursor@, 1) == Some(v),
    {
        let cur = self.cursor.table_slice_by_index(1)?;
        cur.read_u8()
    }

    pub fn args(&self) -> (res: Result<Cursor, Error>)
        ensures
            res is Ok <==> field_raw_bytes(self.cursor@, 2) is Some,
            res matches Ok(v) ==> field_raw_bytes(self.cursor@, 2) == Some(v@),
    {
        let cur = self.cursor.table_slice_by_index(2)?;
        cur.convert_to_rawbytes()
    }

    pub fn verify(&self, compatible: bool) -> (res: Result<(), Error>)
        ensures
            res is Ok <==> spec_valid_script(self.cursor@, compatible),
    {
        self.cursor.verify_table(3, compatible)?;
        let _ = self.code_hash()?;
        Ok(())
    }
}

/// A well-formed `ScriptOpt`: absent, or a well-formed script.
pub open spec fn spec_valid_script_opt(c: CursorView, compatible: bool) -> bool {
    c.size == 0 || spec_valid_script(c, compatible)
}

/// A reference to a cell: the transaction hash and the output index.
#[derive(Clone, Debug)]
pub struct OutPoint {
    pub cursor: Cursor,
}

impl OutPoint {
    pub fn from_cursor(cursor: Cursor) -> (res: Self)
        ensures
            res.cursor@ == cursor@,
    {
        OutPoint { cursor }
    }

    pub fn tx_hash(&self) -> (res: Result<Cursor, Error>)
        ensures
            res is Ok <==> spec_struct_slice(self.cursor@, 0, 32) is Some,
            res matches Ok(v) ==> spec_struct_slice(self.cursor@, 0, 32) == Some(v@),
    {
        self.cursor.slice_by_offset(0, 32)
    }

    pub fn index(&self) -> (res: Result<u32, Error>)
        ensures
            res is Ok <==> spec_struct_u32(self.cursor@, 32) is Some,
            res matches Ok(v) ==> spec_struct_u32(self.cursor@, 32) == Some(v as int),
    {
        let cur = self.cursor.slice_by_offset(32, 4)?;
        cur.read_u32()
    }

    pub fn verify(&self, _compatible: bool) -> (res: Result<(), Error>)
        ensures
            res is Ok <==> self.cursor@.size == 36,
    {
        self.cursor.verify_fixed_size(36)
    }
}

/// A transaction input: its `since` and the cell it spends.
#[derive(Clone, Debug)]
pub struct CellInput {
    pub cursor: Cursor,
}

impl CellInput {
    pub fn from_cursor(cursor: Cursor) -> (res: Self)
        ensures
            res.cursor@ == cursor@,
    {
        CellInput { cursor }
    }

    pub fn since(&self) -> (res: Result<u64, Error>)
        ensures
            res is Ok <==> spec_struct_u64(self.cursor@, 0) is Some,
            res matches Ok(v) ==> spec_struct_u64(self.cursor@, 0) == Some(v as int),
    {
        let cur = self.cursor.slice_by_offset(0, 8)?;
        cur.read_u64()
    }

    pub fn previous_output(&self) -> (res: Result<Cursor, Error>)
        ensures
            res is Ok <==> spec_struct_slice(self.cursor@, 8, 36) is Some,
            res matches Ok(v) ==> spec_struct_slice(self.cursor@, 8, 36) == Some(v@),
    {
        self.cursor.slice_by_offset(8, 36)
    }

    pub fn verify(&self, _compatible: bool) -> (res: Result<(), Error>)
        ensures
            res is Ok <==> self.cursor@.size == 44,
    {
        self.cursor.verify_fixed_size(44)
    }
}

/// A cell dependency: the cell and its dependency type.
#[derive(Clone, Debug)]
pub struct CellDep {
    pub cursor: Cursor,
}

impl CellDep {
    pub fn from_cursor(cursor: Cursor) -> (res: Self)
        ensures
            res.cursor@ == cursor@,
    {
        CellDep { cursor }
    }

    pub fn out_point(&self) -> (res: Result<Cursor, Error>)
        ensures
            res is Ok <==> spec_struct_slice(self.cursor@, 0, 36) is Some,
            res matches Ok(v) ==> spec_struct_slice(self.cursor@, 0, 36) == Some(v@),
    {
        self.cursor.slice_by_offset(0, 36)
    }

    pub fn verify(&self, _compatible: bool) -> (res: Result<(), Error>)
        ensures
            res is Ok <==> self.cursor@.size == 37,
    {
        self.cursor.verify_fixed_size(37)
    }
}

/// A well-formed `CellOutput`: a table whose lock is a script and whose type is an optional script.
pub open spec fn spec_valid_cell_output(c: CursorView, compatible: bool) -> bool {
    c.valid_table(3, compatible)
    && (match c.dynvec_item(1) { Some(f) => spec_valid_script(f, compatible), None => false })
    && (match c.dynvec_item(2) { Some(f) => spec_valid_script_opt(f, compatible), None => false })
}

/// A transaction output: capacity, lock script and optional type script.
#[derive(Clone, Debug)]
pub struct CellOutput {
    pub cursor: Cursor,
}

impl CellOutput {
    pub fn from_cursor(cursor: Cursor) -> (res: Self)
        ensures
            res.cursor@ == cursor@,
    {
        CellOutput { cursor }
    }

    pub fn capacity(&self) -> (res: Result<u64, Error>)
        ensures
            res is Ok <==> field_u64(self.cursor@, 0) is Some,
            res matches Ok(v) ==> field_u64(self.cursor@, 0) == Some(v as int),
    {
        let cur = self.cursor.table_slice_by_index(0)?;
        cur.read_u64()
    }

    pub fn lock(&self) -> (res: Result<Script, Error>)
        ensures
            res is Ok <==> self.cursor@.dynvec_item(1) is Some,
            res matches Ok(v) ==> self.cursor@.dynvec_item(1) == Some(v.cursor@),
    {
        let cur = self.cursor.table_slice_by_index(1)?;
        Ok(Script::from_cursor(cur))
    }

    /// The optional type script, as its raw field window.
    pub fn type_(&self) -> (res: Result<Cursor, Error>)
        ensures
            res is Ok <==> self.cursor@.dynvec_item(2) is Some,
            res matches Ok(v) ==> self.cursor@.dynvec_item(2) == Some(v@),
    {
        self.cursor.table_slice_by_index(2)
    }

    pub fn verify(&self, compatible: bool) -> (res: Result<(), Error>)
        ensures
            res is Ok <==> spec_valid_cell_output(self.cursor@, compatible),
    {
        self.cursor.verify_table(3, compatible)?;
        self.lock()?.verify(compatible)?;
        let type_cursor = self.type_()?;
        if !type_cursor.option_is_none() {
            Script::from_cursor(type_cursor).verify(compatible)?;
        }
        Ok(())
    }
}

/// A well-formed `CellOutputVec`: a dynvec whose items are all well formed.
pub open spec fn spec_valid_cell_output_vec(c: CursorView, compatible: bool) -> bool {
    &&& c.valid_dynvec()
    &&& c.dynvec_length() is Some
    &&& forall|i: int| 0 <= i < c.dynvec_length()->0 ==> match #[trigger] c.dynvec_item(i) {
        Some(f) => spec_valid_cell_output(f, compatible),
        None => false,
    }
}

/// A molecule dynvec of `CellOutput`.
#[derive(Clone, Debug)]
pub struct CellOutputVec {
    pub cursor: Cursor,
}

impl CellOutputVec {
    pub fn from_cursor(cursor: Cursor) -> (res: Self)
        ensures
            res.cursor@ == cursor@,
    {
        CellOutputVec { cursor }
    }

    pub fn len(&self) -> (res: Result<usize, Error>)
        ensures
            res is Ok <==> self.cursor@.dynvec_length() is Some,
            res matches Ok(v) ==> self.cursor@.dynvec_length() == Some(v as int),
    {
        self.cursor.dynvec_length()
    }

    pub fn get(&self, index: usize) -> (res: Result<CellOutput, Error>)
        ensures
            res is Ok <==> self.cursor@.dynvec_item(index as int) is Some,
            res matches Ok(v) ==> self.cursor@.dynvec_item(index as int) == Some(v.cursor@),
    {
        let cur = self.cursor.dynvec_slice_by_index(index)?;
        Ok(CellOutput::from_cursor(cur))
    }

    pub fn verify(&self, compatible: bool) -> (res: Result<(), Error>)
        ensures
            res is Ok <==> spec_valid_cell_output_vec(self.cursor@, compatible),
    {
        let ghost c = self.cursor@;
        self.cursor.verify_dynvec()?;
        let len = self.len()?;
        let mut i: usize = 0;
        while i < len
            invariant
                c == self.cursor@,
                c.valid_dynvec(),
                c.dynvec_length() == Some(len as int),
                0 <= i <= len,
                forall|j: int| 0 <= j < i ==> match #[trigger] c.dynvec_item(j) {
                    Some(f) => spec_valid_cell_output(f, compatible),
                    None => false,
                },
            decreases len - i,
        {
            let item = self.get(i)?;
            item.verify(compatible)?;
            i = i + 1;
        }
        Ok(())
    }
}

/// A well-formed `CellInputVec`: a fixvec of 44-byte items.
pub open spec fn spec_valid_cell_input_vec(c: CursorView, compatible: bool) -> bool {
    c.valid_fixvec(44)
}

/// A fixvec of transaction inputs.
#[derive(Clone, Debug)]
pub struct CellInputVec {
    pub cursor: Cursor,
}

impl CellInputVec {
    pub fn from_cursor(cursor: Cursor) -> (res: Self)
        ensures
            res.cursor@ == cursor@,
    {
        CellInputVec { cursor }
    }

    pub fn len(&self) -> (res: Result<usize, Error>)
        ensures
            res is Ok <==> self.cursor@.number() is Some,
            res matches Ok(v) ==> self.cursor@.number() == Some(v as int),
    {
        self.cursor.fixvec_length()
    }

    pub fn get(&self, index: usize) -> (res: Result<CellInput, Error>)
        ensures
            res is Ok <==> self.cursor@.fixvec_item(44, index as int) is Some,
            res matches Ok(v) ==> self.cursor@.fixvec_item(44, index as int) == Some(v.cursor@),
    {
        let cur = self.cursor.fixvec_slice_by_index(44, index)?;
        Ok(CellInput::from_cursor(cur))
    }

    pub fn verify(&self, compatible: bool) -> (res: Result<(), Error>)
        ensures
            res is Ok <==> spec_valid_cell_input_vec(self.cursor@, compatible),
    {
        self.cursor.verify_fixvec(44)
    }
}

/// A well-formed `CellDepVec`: a fixvec of 37-byte items.
pub open spec fn spec_valid_cell_dep_vec(c: CursorView, compatible: bool) -> bool {
    c.valid_fixvec(37)
}

/// A fixvec of cell dependencies.
#[derive(Clone, Debug)]
pub struct CellDepVec {
    pub cursor: Cursor,
}

impl CellDepVec {
    pub fn from_cursor(cursor: Cursor) -> (res: Self)
        ensures
            res.cursor@ == cursor@,
    {
        CellDepVec { cursor }
    }

    pub fn len(&self) -> (res: Result<usize, Error>)
        ensures
            res is Ok <==> self.cursor@.number() is Some,
            res matches Ok(v) ==> self.cursor@.number() == Some(v as int),
    {
        self.cursor.fixvec_length()
    }

    pub fn get(&self, index: usize) -> (res: Result<CellDep, Error>)
        ensures
            res is Ok <==> self.cursor@.fixvec_item(37, index as int) is Some,
            res matches Ok(v) ==> self.cursor@.fixvec_item(37, index as int) == Some(v.cursor@),
    {
        let cur = self.cursor.fixvec_slice_by_index(37, index)?;
        Ok(CellDep::from_cursor(cur))
    }

    pub fn verify(&self, compatible: bool) -> (res: Result<(), Error>)
        ensures
            res is Ok <==> spec_valid_cell_dep_vec(self.cursor@, compatible),
    {
        self.cursor.verify_fixvec(37)
    }
}

/// A well-formed `Byte32Vec`: a fixvec of 32-byte items.
pub open spec fn spec_valid_byte32_vec(c: CursorView, compatible: bool) -> bool {
    c.valid_fixvec(32)
}

/// A fixvec of 32-byte hashes.
#[derive(Clone, Debug)]
pub struct Byte32Vec {
    pub cursor: Cursor,
}

impl Byte32Vec {
    pub fn from_cursor(cursor: Cursor) -> (res: Self)
        ensures
            res.cursor@ == cursor@,
    {
        Byte32Vec { cursor }
    }

    pub fn len(&self) -> (res: Result<usize, Error>)
        ensures
            res is Ok <==> self.cursor@.number() is Some,
            res matches Ok(v) ==> self.cursor@.number() == Some(v as int),
    {
        self.cursor.fixvec_length()
    }

    pub fn get(&self, index: usize) -> (res: Result<[u8; 32], Error>)
        ensures
            res is Ok <==> (self.cursor@.fixvec_item(32, index as int) matches Some(f) && f.exact_bytes(32)),
            res matches Ok(v) ==> (self.cursor@.fixvec_item(32, index as int) matches Some(f) && v@ == f.bytes()),
    {
        let cur = self.cursor.fixvec_slice_by_index(32, index)?;
        cur.read_byte32()
    }

    pub fn verify(&self, compatible: bool) -> (res: Result<(), Error>)
        ensures
            res is Ok <==> spec_valid_byte32_vec(self.cursor@, compatible),
    {
        self.cursor.verify_fixvec(32)
    }
}

/// A well-formed `BytesVec`: a dynvec whose items are byte fixvecs.
pub open spec fn spec_valid_bytes_vec(c: CursorView, compatible: bool) -> bool {
    &&& c.valid_dynvec()
    &&& c.dynvec_length() is Some
    &&& forall|i: int| 0 <= i < c.dynvec_length()->0 ==> match #[trigger] c.dynvec_item(i) {
        Some(f) => f.valid_fixvec(1),
        None => false,
    }
}

/// A dynvec of byte strings.
#[derive(Clone, Debug)]
pub struct BytesVec {
    pub cursor: Cursor,
}

impl BytesVec {
    pub fn from_cursor(cursor: Cursor) -> (res: Self)
        ensures
            res.cursor@ == cursor@,
    {
        BytesVec { cursor }
    }

    pub fn len(&self) -> (res: Result<usize, Error>)
        ensures
            res is Ok <==> self.cursor@.dynvec_length() is Some,
            res matches Ok(v) ==> self.cursor@.dynvec_length() == Some(v as int),
    {
        self.cursor.dynvec_length()
    }

    /// The payload of item `index`.
    pub fn get(&self, index: usize) -> (res: Result<Cursor, Error>)
        ensures
            res is Ok <==> (self.cursor@.dynvec_item(index as int) matches Some(f) && f.raw_bytes() is Some),
            res matches Ok(v) ==> (self.cursor@.dynvec_item(index as int) matches Some(f) && f.raw_bytes() == Some(v@)),
    {
        let cur = self.cursor.dynvec_slice_by_index(index)?;
        cur.convert_to_rawbytes()
    }

    pub fn verify(&self, compatible: bool) -> (res: Result<(), Error>)
        ensures
            res is Ok <==> spec_valid_bytes_vec(self.cursor@, compatible),
    {
        let ghost c = self.cursor@;
        self.cursor.verify_dynvec()?;
        let len = self.len()?;
        let mut i: usize = 0;
        while i < len
            invariant
                c == self.cursor@,
                c.valid_dynvec(),
                c.dynvec_length() == Some(len as int),
                0 <= i <= len,
                forall|j: int| 0 <= j < i ==> match #[trigger] c.dynvec_item(j) {
                    Some(f) => f.valid_fixvec(1),
                    None => false,
                },
            decreases len - i,
        {
            let item = self.cursor.dynvec_slice_by_index(i)?;
            item.verify_fixvec(1)?;
            i = i + 1;
        }
        Ok(())
    }
}

/// A well-formed `RawTransaction`.
pub open spec fn spec_valid_raw_transaction(c: CursorView, compatible: bool) -> bool {
    c.valid_table(6, compatible)
    && (match c.dynvec_item(1) { Some(f) => spec_valid_cell_dep_vec(f, compatible), None => false })
    && (match c.dynvec_item(2) { Some(f) => spec_valid_byte32_vec(f, compatible), None => false })
    && (match c.dynvec_item(3) { Some(f) => spec_valid_cell_input_vec(f, compatible), None => false })
    && (match c.dynvec_item(4) { Some(f) => spec_valid_cell_output_vec(f, compatible), None => false })
    && (match c.dynvec_item(5) { Some(f) => spec_valid_bytes_vec(f, compatible), None => false })
}

/// The signed part of a transaction.
#[derive(Clone, Debug)]
pub struct RawTransaction {
    pub cursor: Cursor,
}

impl RawTransaction {
    pub fn from_cursor(cursor: Cursor) -> (res: Self)
        ensures
            res.cursor@ == cursor@,
    {
        RawTransaction { cursor }
    }

    pub fn version(&self) -> (res: Result<u32, Error>)
        ensures
            res is Ok <==> field_u32(self.cursor@, 0) is Some,
            res matches Ok(v) ==> field_u32(self.cursor@, 0) == Some(v as int),
    {
        let cur = self.cursor.table_slice_by_index(0)?;
        cur.read_u32()
    }

    pub fn cell_deps(&self) -> (res: Result<CellDepVec, Error>)
        ensures
            res is Ok <==> self.cursor@.dynvec_item(1) is Some,
            res matches Ok(v) ==> self.cursor@.dynvec_item(1) == Some(v.cursor@),
    {
        let cur = self.cursor.table_slice_by_index(1)?;
        Ok(CellDepVec::from_cursor(cur))
    }

    pub fn header_deps(&self) -> (res: Result<Byte32Vec, Error>)
        ensures
            res is Ok <==> self.cursor@.dynvec_item(2) is Some,
            res matches Ok(v) ==> self.cursor@.dynvec_item(2) == Some(v.cursor@),
    {
        let cur = self.cursor.table_slice_by_index(2)?;
        Ok(Byte32Vec::from_cursor(cur))
    }

    pub fn inputs(&self) -> (res: Result<CellInputVec, Error>)
        ensures
            res is Ok <==> self.cursor@.dynvec_item(3) is Some,
            res matches Ok(v) ==> self.cursor@.dynvec_item(3) == Some(v.cursor@),
    {
        let cur = self.cursor.table_slice_by_index(3)?;
        Ok(CellInputVec::from_cursor(cur))
    }

    pub fn outputs(&self) -> (res: Result<CellOutputVec, Error>)
        ensures
            res is Ok <==> self.cursor@.dynvec_item(4) is Some,
            res matches Ok(v) ==> self.cursor@.dynvec_item(4) == Some(v.cursor@),
    {
        let cur = self.cursor.table_slice_by_index(4)?;
        Ok(CellOutputVec::from_cursor(cur))
    }

    pub fn outputs_data(&self) -> (res: Result<BytesVec, Error>)
        ensures
            res is Ok <==> self.cursor@.dynvec_item(5) is Some,
            res matches Ok(v) ==> self.cursor@.dynvec_item(5) == Some(v.cursor@),
    {
        let cur = self.cursor.table_slice_by_index(5)?;
        Ok(BytesVec::from_cursor(cur))
    }

    pub fn verify(&self, compatible: bool) -> (res: Result<(), Error>)
        ensures
            res is Ok <==> spec_valid_raw_transaction(self.cursor@, compatible),
    {
        self.cursor.verify_table(6, compatible)?;
        self.cell_deps()?.verify(compatible)?;
        self.header_deps()?.verify(compatible)?;
        self.inputs()?.verify(compatible)?;
        self.outputs()?.verify(compatible)?;
        self.outputs_data()?.verify(compatible)?;
        Ok(())
    }
}

/// A well-formed `Transaction`.
pub open spec fn spec_valid_transaction(c: CursorView, compatible: bool) -> bool {
    c.valid_table(2, compatible)
    && (match c.dynvec_item(0) { Some(f) => spec_valid_raw_transaction(f, compatible), None => false })
    && (match c.dynvec_item(1) { Some(f) => spec_valid_bytes_vec(f, compatible), None => false })
}

/// A transaction: its raw part and its witnesses.
#[derive(Clone, Debug)]
pub struct Transaction {
    pub cursor: Cursor,
}

impl Transaction {
    pub fn from_cursor(cursor: Cursor) -> (res: Self)
        ensures
            res.cursor@ == cursor@,
    {
        Transaction { cursor }
    }

    pub fn raw(&self) -> (res: Result<RawTransaction, Error>)
        ensures
            res is Ok <==> self.cursor@.dynvec_item(0) is Some,
            res matches Ok(v) ==> self.cursor@.dynvec_item(0) == Some(v.cursor@),
    {
        let cur = self.cursor.table_slice_by_index(0)?;
        Ok(RawTransaction::from_cursor(cur))
    }

    pub fn witnesses(&self) -> (res: Result<BytesVec, Error>)
        ensures
            res is Ok <==> self.cursor@.dynvec_item(1) is Some,
            res matches Ok(v) ==> self.cursor@.dynvec_item(1) == Some(v.cursor@),
    {
        let cur = self.cursor.table_slice_by_index(1)?;
        Ok(BytesVec::from_cursor(cur))
    }

    pub fn verify(&self, compatible: bool) -> (res: Result<(), Error>)
        ensures
            res is Ok <==> spec_valid_transaction(self.cursor@, compatible),
    {
        self.cursor.verify_table(2, compatible)?;
        self.raw()?.verify(compatible)?;
        self.witnesses()?.verify(compatible)?;
        Ok(())
    }
}

} // verus!
