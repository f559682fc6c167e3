//! Readers for the Cobuild molecule schema: actions, messages, seals and OTX witnesses.

use vstd::prelude::*;

use super::support::{
    field_byte32, field_raw_bytes, field_u32, field_u64, field_u8, Cursor, CursorView, Error,
};

verus! {

/// A well-formed `Action`.
pub open spec fn spec_valid_action(c: CursorView, compatible: bool) -> bool {
    c.valid_table(4, compatible)
    && field_byte32(c, 0) is Some
    && field_byte32(c, 2) is Some
}

/// A Cobuild action: the script it targets and its opaque data.
#[derive(Clone, Debug)]
pub struct Action {
    pub cursor: Cursor,
}

impl Action {
    pub fn from_cursor(cursor: Cursor) -> (res: Self)
        ensures
            res.cursor@ == cursor@,
    {
        Action { cursor }
    }

    pub fn script_info_hash(&self) -> (res: Result<[u8; 32], Error>)
        ensures
            res is Ok <==> field_byte32(self.cursor@, 0) is Some,
            res matches Ok(v) ==> field_byte32(self.cursor@, 0) == Some(v@),
    {
        let cur = self.cursor.table_slice_by_index(0)?;
        cur.read_byte32()
    }

    pub fn script_role(&self) -> (res: Result<u8, Error>)
        ensures
            res is Ok <==> field_u8(self.cursor@, 1) is Some,
            res matches Ok(v) ==> field_u8(self.cursor@, 1) == Some(v),
    {
        let cur = self.cursor.table_slice_by_index(1)?;
        cur.read_u8()
    }

    pub fn script_hash(&self) -> (res: Result<[u8; 32], Error>)
        ensures
            res is Ok <==> field_byte32(self.cursor@, 2) is Some,
            res matches Ok(v) ==> field_byte32(self.cursor@, 2) == Some(v@),
    {
        let cur = self.cursor.table_slice_by_index(2)?;
        cur.read_byte32()
    }

    pub fn data(&self) -> (res: Result<Cursor, Error>)
        ensures
            res is Ok <==> field_raw_bytes(self.cursor@, 3) is Some,
            res matches Ok(v) ==> field_raw_bytes(self.cursor@, 3) == Some(v@),
    {
        let cur = self.cursor.table_slice_by_index(3)?;
        cur.convert_to_rawbytes()
    }

    pub fn verify(&self, compatible: bool) -> (res: Result<(), Error>)
        ensures
            res is Ok <==> spec_valid_action(self.cursor@, compatible),
    {
        self.cursor.verify_table(4, compatible)?;
        let _ = self.script_info_hash()?;
        let _ = self.script_hash()?;
        Ok(())
    }
}

/// A well-formed `ActionVec`: a dynvec whose items are all well formed.
pub open spec fn spec_valid_action_vec(c: CursorView, compatible: bool) -> bool {
    &&& c.valid_dynvec()
    &&& c.dynvec_length() is Some
    &&& forall|i: int| 0 <= i < c.dynvec_length()->0 ==> match #[trigger] c.dynvec_item(i) {
        Some(f) => spec_valid_action(f, compatible),
        None => false,
    }
}

/// A molecule dynvec of `Action`.
#[derive(Clone, Debug)]
pub struct ActionVec {
    pub cursor: Cursor,
}

impl ActionVec {
    pub fn from_cursor(cursor: Cursor) -> (res: Self)
        ensures
            res.cursor@ == cursor@,
    {
        ActionVec { cursor }
    }

    pub fn len(&self) -> (res: Result<usize, Error>)
        ensures
            res is Ok <==> self.cursor@.dynvec_length() is Some,
            res matches Ok(v) ==> self.cursor@.dynvec_length() == Some(v as int),
    {
        self.cursor.dynvec_length()
    }

    pub fn get(&self, index: usize) -> (res: Result<Action, Error>)
        ensures
            res is Ok <==> self.cursor@.dynvec_item(index as int) is Some,
            res matches Ok(v) ==> self.cursor@.dynvec_item(index as int) == Some(v.cursor@),
    {
        let cur = self.cursor.dynvec_slice_by_index(index)?;
        Ok(Action::from_cursor(cur))
    }

    pub fn verify(&self, compatible: bool) -> (res: Result<(), Error>)
        ensures
            res is Ok <==> spec_valid_action_vec(self.cursor@, compatible),
    {
        let ghost c = self.cursor@;
        self.cursor.verify_dynvec()?;
        let len = self.len()?;
        let mut i: usize = 0;
        while i < len
            invariant
                c == self.cursor@,
                c.valid_dynvec(),
                c.dynvec_length() == Some(len as int),
                0 <= i <= len,
                forall|j: int| 0 <= j < i ==> match #[trigger] c.dynvec_item(j) {
                    Some(f) => spec_valid_action(f, compatible),
                    None => false,
                },
            decreases len - i,
        {
            let item = self.get(i)?;
            item.verify(compatible)?;
            i = i + 1;
        }
        Ok(())
    }
}

/// A well-formed `Message`.
pub open spec fn spec_valid_message(c: CursorView, compatible: bool) -> bool {
    c.valid_table(1, compatible)
    && (match c.dynvec_item(0) { Some(f) => spec_valid_action_vec(f, compatible), None => false })
}

/// A Cobuild message: the actions a transaction carries.
#[derive(Clone, Debug)]
pub struct Message {
    pub cursor: Cursor,
}

impl Message {
    pub fn from_cursor(cursor: Cursor) -> (res: Self)
        ensures
            res.cursor@ == cursor@,
    {
        Message { cursor }
    }

    pub fn actions(&self) -> (res: Result<ActionVec, Error>)
        ensures
            res is Ok <==> self.cursor@.dynvec_item(0) is Some,
            res matches Ok(v) ==> self.cursor@.dynvec_item(0) == Some(v.cursor@),
    {
        let cur = self.cursor.table_slice_by_index(0)?;
        Ok(ActionVec::from_cursor(cur))
    }

    pub fn verify(&self, compatible: bool) -> (res: Result<(), Error>)
        ensures
            res is Ok <==> spec_valid_message(self.cursor@, compatible),
    {
        self.cursor.verify_table(1, compatible)?;
        self.actions()?.verify(compatible)?;
        Ok(())
    }
}

/// A well-formed `SighashAll`.
pub open spec fn spec_valid_sighash_all(c: CursorView, compatible: bool) -> bool {
    c.valid_table(2, compatible)
    && (match c.dynvec_item(1) { Some(f) => spec_valid_message(f, compatible), None => false })
}

/// A transaction-level witness with a seal and the message.
#[derive(Clone, Debug)]
pub struct SighashAll {
    pub cursor: Cursor,
}

impl SighashAll {
    pub fn from_cursor(cursor: Cursor) -> (res: Self)
        ensures
            res.cursor@ == cursor@,
    {
        SighashAll { cursor }
    }

    pub fn seal(&self) -> (res: Result<Cursor, Error>)
        ensures
            res is Ok <==> field_raw_bytes(self.cursor@, 0) is Some,
            res matches Ok(v) ==> field_raw_bytes(self.cursor@, 0) == Some(v@),
    {
        let cur = self.cursor.table_slice_by_index(0)?;
        cur.convert_to_rawbytes()
    }

    pub fn message(&self) -> (res: Result<Message, Error>)
        ensures
            res is Ok <==> self.cursor@.dynvec_item(1) is Some,
            res matches Ok(v) ==> self.cursor@.dynvec_item(1) == Some(v.cursor@),
    {
        let cur = self.cursor.table_slice_by_index(1)?;
        Ok(Message::from_cursor(cur))
    }

    pub fn verify(&self, compatible: bool) -> (res: Result<(), Error>)
        ensures
            res is Ok <==> spec_valid_sighash_all(self.cursor@, compatible),
    {
        self.cursor.verify_table(2, compatible)?;
        self.message()?.verify(compatible)?;
        Ok(())
    }
}

/// A well-formed `SighashAllOnly`.
pub open spec fn spec_valid_sighash_all_only(c: CursorView, compatible: bool) -> bool {
    c.valid_table(1, compatible)
}

/// A transaction-level witness with a seal only.
#[derive(Clone, Debug)]
pub struct SighashAllOnly {
    pub cursor: Cursor,
}

impl SighashAllOnly {
    pub fn from_cursor(cursor: Cursor) -> (res: Self)
        ensures
            res.cursor@ == cursor@,
    {
        SighashAllOnly { cursor }
    }

    pub fn seal(&self) -> (res: Result<Cursor, Error>)
        ensures
            res is Ok <==> field_raw_bytes(self.cursor@, 0) is Some,
            res matches Ok(v) ==> field_raw_bytes(self.cursor@, 0) == Some(v@),
    {
        let cur = self.cursor.table_slice_by_index(0)?;
        cur.convert_to_rawbytes()
    }

    pub fn verify(&self, compatible: bool) -> (res: Result<(), Error>)
        ensures
            res is Ok <==> spec_valid_sighash_all_only(self.cursor@, compatible),
    {
        self.cursor.verify_table(1, compatible)?;
        Ok(())
    }
}

/// A well-formed `LockSeal`.
pub open spec fn spec_valid_lock_seal(c: CursorView, compatible: bool) -> bool {
    c.valid_table(2, compatible)
    && field_byte32(c, 0) is Some
}

/// A seal for the lock script with `script_hash`.
#[derive(Clone, Debug)]
pub struct LockSeal {
    pub cursor: Cursor,
}

impl LockSeal {
    pub fn from_cursor(cursor: Cursor) -> (res: Self)
        ensures
            res.cursor@ == cursor@,
    {
        LockSeal { cursor }
    }

    pub fn script_hash(&self) -> (res: Result<[u8; 32], Error>)
        ensures
            res is Ok <==> field_byte32(self.cursor@, 0) is Some,
            res matches Ok(v) ==> field_byte32(self.cursor@, 0) == Some(v@),
    {
        let cur = self.cursor.table_slice_by_index(0)?;
        cur.read_byte32()
    }

    pub fn seal(&self) -> (res: Result<Cursor, Error>)
        ensures
            res is Ok <==> field_raw_bytes(self.cursor@, 1) is Some,
            res matches Ok(v) ==> field_raw_bytes(self.cursor@, 1) == Some(v@),
    {
        let cur = self.cursor.table_slice_by_index(1)?;
        cur.convert_to_rawbytes()
    }

    pub fn verify(&self, compatible: bool) -> (res: Result<(), Error>)
        ensures
            res is Ok <==> spec_valid_lock_seal(self.cursor@, compatible),
    {
        self.cursor.verify_table(2, compatible)?;
        let _ = self.script_hash()?;
        Ok(())
    }
}

/// A well-formed `LockSealVec`: a dynvec whose items are all well formed.
pub open spec fn spec_valid_lock_seal_vec(c: CursorView, compatible: bool) -> bool {
    &&& c.valid_dynvec()
    &&& c.dynvec_length() is Some
    &&& forall|i: int| 0 <= i < c.dynvec_length()->0 ==> match #[trigger] c.dynvec_item(i) {
        Some(f) => spec_valid_lock_seal(f, compatible),
        None => false,
    }
}

/// A molecule dynvec of `LockSeal`.
#[derive(Clone, Debug)]
pub struct LockSealVec {
    pub cursor: Cursor,
}

impl LockSealVec {
    pub fn from_cursor(cursor: Cursor) -> (res: Self)
        ensures
            res.cursor@ == cursor@,
    {
        LockSealVec { cursor }
    }

    pub fn len(&self) -> (res: Result<usize, Error>)
        ensures
            res is Ok <==> self.cursor@.dynvec_length() is Some,
            res matches Ok(v) ==> self.cursor@.dynvec_length() == Some(v as int),
    {
        self.cursor.dynvec_length()
    }

    pub fn get(&self, index: usize) -> (res: Result<LockSeal, Error>)
        ensures
            res is Ok <==> self.cursor@.dynvec_item(index as int) is Some,
            res matches Ok(v) ==> self.cursor@.dynvec_item(index as int) == Some(v.cursor@),
    {
        let cur = self.cursor.dynvec_slice_by_index(index)?;
        Ok(LockSeal::from_cursor(cur))
    }

    pub fn verify(&self, compatible: bool) -> (res: Result<(), Error>)
        ensures
            res is Ok <==> spec_valid_lock_seal_vec(self.cursor@, compatible),
    {
        let ghost c = self.cursor@;
        self.cursor.verify_dynvec()?;
        let len = self.len()?;
        let mut i: usize = 0;
        while i < len
            invariant
                c == self.cursor@,
                c.valid_dynvec(),
                c.dynvec_length() == Some(len as int),
                0 <= i <= len,
                forall|j: int| 0 <= j < i ==> match #[trigger] c.dynvec_item(j) {
                    Some(f) => spec_valid_lock_seal(f, compatible),
                    None => false,
                },
            decreases len - i,
        {
            let item = self.get(i)?;
            item.verify(compatible)?;
            i = i + 1;
        }
        Ok(())
    }
}

/// A well-formed `OtxAppendSegment`.
pub open spec fn spec_valid_otx_append_segment(c: CursorView, compatible: bool) -> bool {
    c.valid_table(6, compatible)
    && (match c.dynvec_item(5) { Some(f) => spec_valid_lock_seal_vec(f, compatible), None => false })
}

/// One segment of entities appended to an OTX, with its seals.
#[derive(Clone, Debug)]
pub struct OtxAppendSegment {
    pub cursor: Cursor,
}

impl OtxAppendSegment {
    pub fn from_cursor(cursor: Cursor) -> (res: Self)
        ensures
            res.cursor@ == cursor@,
    {
        OtxAppendSegment { cursor }
    }

    pub fn segment_flags(&self) -> (res: Result<u8, Error>)
        ensures
            res is Ok <==> field_u8(self.cursor@, 0) is Some,
            res matches Ok(v) ==> field_u8(self.cursor@, 0) == Some(v),
    {
        let cur = self.cursor.table_slice_by_index(0)?;
        cur.read_u8()
    }

    pub fn input_cells(&self) -> (res: Result<u32, Error>)
        ensures
            res is Ok <==> field_u32(self.cursor@, 1) is Some,
            res matches Ok(v) ==> field_u32(self.cursor@, 1) == Some(v as int),
    {
        let cur = self.cursor.table_slice_by_index(1)?;
        cur.read_u32()
    }

    pub fn output_cells(&self) -> (res: Result<u32, Error>)
        ensures
            res is Ok <==> field_u32(self.cursor@, 2) is Some,
            res matches Ok(v) ==> field_u32(self.cursor@, 2) == Some(v as int),
    {
        let cur = self.cursor.table_slice_by_index(2)?;
        cur.read_u32()
    }

    pub fn cell_deps(&self) -> (res: Result<u32, Error>)
        ensures
            res is Ok <==> field_u32(self.cursor@, 3) is Some,
            res matches Ok(v) ==> field_u32(self.cursor@, 3) == Some(v as int),
    {
        let cur = self.cursor.table_slice_by_index(3)?;
        cur.read_u32()
    }

    pub fn header_deps(&self) -> (res: Result<u32, Error>)
        ensures
            res is Ok <==> field_u32(self.cursor@, 4) is Some,
            res matches Ok(v) ==> field_u32(self.cursor@, 4) == Some(v as int),
    {
        let cur = self.cursor.table_slice_by_index(4)?;
        cur.read_u32()
    }

    pub fn seals(&self) -> (res: Result<LockSealVec, Error>)
        ensures
            res is Ok <==> self.cursor@.dynvec_item(5) is Some,
            res matches Ok(v) ==> self.cursor@.dynvec_item(5) == Some(v.cursor@),
    {
        let cur = self.cursor.table_slice_by_index(5)?;
        Ok(LockSealVec::from_cursor(cur))
    }

    pub fn verify(&self, compatible: bool) -> (res: Result<(), Error>)
        ensures
            res is Ok <==> spec_valid_otx_append_segment(self.cursor@, compatible),
    {
        self.cursor.verify_table(6, compatible)?;
        self.seals()?.verify(compatible)?;
        Ok(())
    }
}

/// A well-formed `OtxAppendSegmentVec`: a dynvec whose items are all well formed.
pub open spec fn spec_valid_otx_append_segment_vec(c: CursorView, compatible: bool) -> bool {
    &&& c.valid_dynvec()
    &&& c.dynvec_length() is Some
    &&& forall|i: int| 0 <= i < c.dynvec_length()->0 ==> match #[trigger] c.dynvec_item(i) {
        Some(f) => spec_valid_otx_append_segment(f, compatible),
        None => false,
    }
}

/// A molecule dynvec of `OtxAppendSegment`.
#[derive(Clone, Debug)]
pub struct OtxAppendSegmentVec {
    pub cursor: Cursor,
}

impl OtxAppendSegmentVec {
    pub fn from_cursor(cursor: Cursor) -> (res: Self)
        ensures
            res.cursor@ == cursor@,
    {
        OtxAppendSegmentVec { cursor }
    }

    pub fn len(&self) -> (res: Result<usize, Error>)
        ensures
            res is Ok <==> self.cursor@.dynvec_length() is Some,
            res matches Ok(v) ==> self.cursor@.dynvec_length() == Some(v as int),
    {
        self.cursor.dynvec_length()
    }

    pub fn get(&self, index: usize) -> (res: Result<OtxAppendSegment, Error>)
        ensures
            res is Ok <==> self.cursor@.dynvec_item(index as int) is Some,
            res matches Ok(v) ==> self.cursor@.dynvec_item(index as int) == Some(v.cursor@),
    {
        let cur = self.cursor.dynvec_slice_by_index(index)?;
        Ok(OtxAppendSegment::from_cursor(cur))
    }

    pub fn verify(&self, compatible: bool) -> (res: Result<(), Error>)
        ensures
            res is Ok <==> spec_valid_otx_append_segment_vec(self.cursor@, compatible),
    {
        let ghost c = self.cursor@;
        self.cursor.verify_dynvec()?;
        let len = self.len()?;
        let mut i: usize = 0;
        while i < len
            invariant
                c == self.cursor@,
                c.valid_dynvec(),
                c.dynvec_length() == Some(len as int),
                0 <= i <= len,
                forall|j: int| 0 <= j < i ==> match #[trigger] c.dynvec_item(j) {
                    Some(f) => spec_valid_otx_append_segment(f, compatible),
                    None => false,
                },
            decreases len - i,
        {
            let item = self.get(i)?;
            item.verify(compatible)?;
            i = i + 1;
        }
        Ok(())
    }
}

/// A well-formed `OtxStart`.
pub open spec fn spec_valid_otx_start(c: CursorView, compatible: bool) -> bool {
    c.valid_table(4, compatible)
}

/// The witness that opens a run of OTX witnesses and says where their entities start.
#[derive(Clone, Debug)]
pub struct OtxStart {
    pub cursor: Cursor,
}

impl OtxStart {
    pub fn from_cursor(cursor: Cursor) -> (res: Self)
        ensures
            res.cursor@ == cursor@,
    {
        OtxStart { cursor }
    }

    pub fn start_input_cell(&self) -> (res: Result<u32, Error>)
        ensures
            res is Ok <==> field_u32(self.cursor@, 0) is Some,
            res matches Ok(v) ==> field_u32(self.cursor@, 0) == Some(v as int),
    {
        let cur = self.cursor.table_slice_by_index(0)?;
        cur.read_u32()
    }

    pub fn start_output_cell(&self) -> (res: Result<u32, Error>)
        ensures
            res is Ok <==> field_u32(self.cursor@, 1) is Some,
            res matches Ok(v) ==> field_u32(self.cursor@, 1) == Some(v as int),
    {
        let cur = self.cursor.table_slice_by_index(1)?;
        cur.read_u32()
    }

    pub fn start_cell_deps(&self) -> (res: Result<u32, Error>)
        ensures
            res is Ok <==> field_u32(self.cursor@, 2) is Some,
            res matches Ok(v) ==> field_u32(self.cursor@, 2) == Some(v as int),
    {
        let cur = self.cursor.table_slice_by_index(2)?;
        cur.read_u32()
    }

    pub fn start_header_deps(&self) -> (res: Result<u32, Error>)
        ensures
            res is Ok <==> field_u32(self.cursor@, 3) is Some,
            res matches Ok(v) ==> field_u32(self.cursor@, 3) == Some(v as int),
    {
        let cur = self.cursor.table_slice_by_index(3)?;
        cur.read_u32()
    }

    pub fn verify(&self, compatible: bool) -> (res: Result<(), Error>)
        ensures
            res is Ok <==> spec_valid_otx_start(self.cursor@, compatible),
    {
        self.cursor.verify_table(4, compatible)?;
        Ok(())
    }
}

/// A well-formed `Otx`.
pub open spec fn spec_valid_otx(c: CursorView, compatible: bool) -> bool {
    c.valid_table(12, compatible)
    && (match c.dynvec_item(0) { Some(f) => spec_valid_message(f, compatible), None => false })
    && (match c.dynvec_item(10) { Some(f) => spec_valid_otx_append_segment_vec(f, compatible), None => false })
    && (match c.dynvec_item(11) { Some(f) => spec_valid_lock_seal_vec(f, compatible), None => false })
}

/// An open transaction: its message, base entities with field masks, append segments and base seals.
#[derive(Clone, Debug)]
pub struct Otx {
    pub cursor: Cursor,
}

impl Otx {
    pub fn from_cursor(cursor: Cursor) -> (res: Self)
        ensures
            res.cursor@ == cursor@,
    {
        Otx { cursor }
    }

    pub fn message(&self) -> (res: Result<Message, Error>)
        ensures
            res is Ok <==> self.cursor@.dynvec_item(0) is Some,
            res matches Ok(v) ==> self.cursor@.dynvec_item(0) == Some(v.cursor@),
    {
        let cur = self.cursor.table_slice_by_index(0)?;
        Ok(Message::from_cursor(cur))
    }

    pub fn append_permissions(&self) -> (res: Result<u8, Error>)
        ensures
            res is Ok <==> field_u8(self.cursor@, 1) is Some,
            res matches Ok(v) ==> field_u8(self.cursor@, 1) == Some(v),
    {
        let cur = self.cursor.table_slice_by_index(1)?;
        cur.read_u8()
    }

    pub fn base_input_cells(&self) -> (res: Result<u32, Error>)
        ensures
            res is Ok <==> field_u32(self.cursor@, 2) is Some,
            res matches Ok(v) ==> field_u32(self.cursor@, 2) == Some(v as int),
    {
        let cur = self.cursor.table_slice_by_index(2)?;
        cur.read_u32()
    }

    pub fn base_input_masks(&self) -> (res: Result<Cursor, Error>)
        ensures
            res is Ok <==> field_raw_bytes(self.cursor@, 3) is Some,
            res matches Ok(v) ==> field_raw_bytes(self.cursor@, 3) == Some(v@),
    {
        let cur = self.cursor.table_slice_by_index(3)?;
        cur.convert_to_rawbytes()
    }

    pub fn base_output_cells(&self) -> (res: Result<u32, Error>)
        ensures
            res is Ok <==> field_u32(self.cursor@, 4) is Some,
            res matches Ok(v) ==> field_u32(self.cursor@, 4) == Some(v as int),
    {
        let cur = self.cursor.table_slice_by_index(4)?;
        cur.read_u32()
    }

    pub fn base_output_masks(&self) -> (res: Result<Cursor, Error>)
        ensures
            res is Ok <==> field_raw_bytes(self.cursor@, 5) is Some,
            res matches Ok(v) ==> field_raw_bytes(self.cursor@, 5) == Some(v@),
    {
        let cur = self.cursor.table_slice_by_index(5)?;
        cur.convert_to_rawbytes()
    }

    pub fn base_cell_deps(&self) -> (res: Result<u32, Error>)
        ensures
            res is Ok <==> field_u32(self.cursor@, 6) is Some,
            res matches Ok(v) ==> field_u32(self.cursor@, 6) == Some(v as int),
    {
        let cur = self.cursor.table_slice_by_index(6)?;
        cur.read_u32()
    }

    pub fn base_cell_dep_masks(&self) -> (res: Result<Cursor, Error>)
        ensures
            res is Ok <==> field_raw_bytes(self.cursor@, 7) is Some,
            res matches Ok(v) ==> field_raw_bytes(self.cursor@, 7) == Some(v@),
    {
        let cur = self.cursor.table_slice_by_index(7)?;
        cur.convert_to_rawbytes()
    }

    pub fn base_header_deps(&self) -> (res: Result<u32, Error>)
        ensures
            res is Ok <==> field_u32(self.cursor@, 8) is Some,
            res matches Ok(v) ==> field_u32(self.cursor@, 8) == Some(v as int),
    {
        let cur = self.cursor.table_slice_by_index(8)?;
        cur.read_u32()
    }

    pub fn base_header_dep_masks(&self) -> (res: Result<Cursor, Error>)
        ensures
            res is Ok <==> field_raw_bytes(self.cursor@, 9) is Some,
            res matches Ok(v) ==> field_raw_bytes(self.cursor@, 9) == Some(v@),
    {
        let cur = self.cursor.table_slice_by_index(9)?;
        cur.convert_to_rawbytes()
    }

    pub fn append_segments(&self) -> (res: Result<OtxAppendSegmentVec, Error>)
        ensures
            res is Ok <==> self.cursor@.dynvec_item(10) is Some,
            res matches Ok(v) ==> self.cursor@.dynvec_item(10) == Some(v.cursor@),
    {
        let cur = self.cursor.table_slice_by_index(10)?;
        Ok(OtxAppendSegmentVec::from_cursor(cur))
    }

    pub fn base_seals(&self) -> (res: Result<LockSealVec, Error>)
        ensures
            res is Ok <==> self.cursor@.dynvec_item(11) is Some,
            res matches Ok(v) ==> self.cursor@.dynvec_item(11) == Some(v.cursor@),
    {
        let cur = self.cursor.table_slice_by_index(11)?;
        Ok(LockSealVec::from_cursor(cur))
    }

    pub fn verify(&self, compatible: bool) -> (res: Result<(), Error>)
        ensures
            res is Ok <==> spec_valid_otx(self.cursor@, compatible),
    {
        self.cursor.verify_table(12, compatible)?;
        self.message()?.verify(compatible)?;
        self.append_segments()?.verify(compatible)?;
        self.base_seals()?.verify(compatible)?;
        Ok(())
    }
}

} // verus!
