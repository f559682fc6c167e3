//! Where transaction data comes from, and which error a failed read of it is.

use vstd::prelude::*;

use crate::error::CoreError;
use crate::lazy_reader::support::{Cursor, CursorView};
use crate::reader::cursor_from_slice;

verus! {

/// What a cursor holds, which decides the error a failed read reports.
#[derive(Clone, Copy, Debug, PartialEq, Eq, Structural)]
pub enum CursorReadContext {
    Protocol,
    SourceInput,
    HashInput,
}

/// The error a failed read of a cursor of this kind reports.
pub open spec fn spec_read_error(c: CursorReadContext) -> CoreError {
    match c {
        CursorReadContext::Protocol => CoreError::MalformedCobuild,
        CursorReadContext::SourceInput => CoreError::InvalidContextInput,
        CursorReadContext::HashInput => CoreError::MissingHashInput,
    }
}

/// A cursor tagged with what it holds.
#[derive(Clone, Debug)]
pub struct ClassifiedCursor {
    pub cursor: Cursor,
    pub read_context: CursorReadContext,
}

impl ClassifiedCursor {
    pub fn new(cursor: Cursor, read_context: CursorReadContext) -> (res: ClassifiedCursor)
        ensures
            res.cursor@ == cursor@,
            res.read_context == read_context,
    {
        ClassifiedCursor { cursor, read_context }
    }

    /// A cursor over Cobuild protocol data.
    pub fn protocol(cursor: Cursor) -> (res: ClassifiedCursor)
        ensures
            res.cursor@ == cursor@,
            res.read_context == CursorReadContext::Protocol,
    {
        Self::new(cursor, CursorReadContext::Protocol)
    }

    /// A cursor over data the script's context was built from.
    pub fn source_input(cursor: Cursor) -> (res: ClassifiedCursor)
        ensures
            res.cursor@ == cursor@,
            res.read_context == CursorReadContext::SourceInput,
    {
        Self::new(cursor, CursorReadContext::SourceInput)
    }

    /// A cursor over data a signing hash covers.
    pub fn hash_input(cursor: Cursor) -> (res: ClassifiedCursor)
        ensures
            res.cursor@ == cursor@,
            res.read_context == CursorReadContext::HashInput,
    {
        Self::new(cursor, CursorReadContext::HashInput)
    }

    /// The error a failed read of this cursor reports.
    pub fn read_error(&self) -> (res: CoreError)
        ensures
            res == spec_read_error(self.read_context),
    {
        match self.read_context {
            CursorReadContext::Protocol => CoreError::MalformedCobuild,
            CursorReadContext::SourceInput => CoreError::InvalidContextInput,
            CursorReadContext::HashInput => CoreError::MissingHashInput,
        }
    }
}

/// The transaction data a script's context is built from.
pub trait TransactionSource {
    fn transaction_cursor(&self) -> Result<ClassifiedCursor, CoreError>;

    fn script_cursor(&self) -> Result<ClassifiedCursor, CoreError>;

    fn tx_hash(&self) -> Result<[u8; 32], CoreError>;

    fn input_lock_hash(&self, index: usize) -> Result<[u8; 32], CoreError>;

    fn input_type_hash(&self, index: usize) -> Result<Option<[u8; 32]>, CoreError>;

    fn output_type_hash(&self, index: usize) -> Result<Option<[u8; 32]>, CoreError>;

    fn resolved_input_output_cursor(&self, index: usize) -> Result<ClassifiedCursor, CoreError>;

    fn resolved_input_data_cursor(&self, index: usize) -> Result<ClassifiedCursor, CoreError>;
}

/// The transaction data the signing hashes cover.
pub trait SigningDataSource: TransactionSource {
    fn input_count(&self) -> Result<usize, CoreError>;

    fn witness_count(&self) -> Result<usize, CoreError>;

    fn witness_cursor(&self, absolute_index: usize) -> Result<ClassifiedCursor, CoreError>;

    fn raw_input_cursor(&self, index: usize) -> Result<ClassifiedCursor, CoreError>;

    fn raw_output_cursor(&self, index: usize) -> Result<ClassifiedCursor, CoreError>;

    fn raw_output_data_cursor(&self, index: usize) -> Result<ClassifiedCursor, CoreError>;

    fn raw_cell_dep_cursor(&self, index: usize) -> Result<ClassifiedCursor, CoreError>;

    fn raw_header_dep_hash(&self, index: usize) -> Result<[u8; 32], CoreError>;
}

/// The whole of a byte string as a cursor view.
pub open spec fn spec_bytes_cursor(bytes: Seq<u8>) -> CursorView {
    CursorView { data: bytes, offset: 0, size: bytes.len() as int }
}

/// Item `index` of a list of byte strings, as a cursor view.
pub open spec fn spec_item_cursor(items: Seq<Vec<u8>>, index: int) -> Option<CursorView> {
    if 0 <= index < items.len() {
        Some(spec_bytes_cursor(items[index]@))
    } else {
        None
    }
}

/// A transaction held in memory, already split into the parts the core reads.
#[derive(Clone, Debug, Default)]
pub struct InMemorySource {
    pub transaction: Vec<u8>,
    pub script: Vec<u8>,
    pub tx_hash: [u8; 32],
    pub input_locks: Vec<[u8; 32]>,
    pub input_types: Vec<Option<[u8; 32]>>,
    pub output_types: Vec<Option<[u8; 32]>>,
    pub resolved_outputs: Vec<Vec<u8>>,
    pub resolved_data: Vec<Vec<u8>>,
    pub raw_inputs: Vec<Vec<u8>>,
    pub raw_outputs: Vec<Vec<u8>>,
    pub raw_outputs_data: Vec<Vec<u8>>,
    pub raw_cell_deps: Vec<Vec<u8>>,
    pub raw_header_deps: Vec<[u8; 32]>,
    pub witnesses: Vec<Vec<u8>>,
}

/// Item `index` of the list as a hash-input cursor; a missing item is missing hash input.
fn hash_input_cursor(items: &Vec<Vec<u8>>, index: usize) -> (res: Result<ClassifiedCursor, CoreError>)
    ensures
        match spec_item_cursor(items@, index as int) {
            Some(c) => res matches Ok(r) && r.cursor@ == c && r.read_context == CursorReadContext::HashInput,
            None => res == Err::<ClassifiedCursor, CoreError>(CoreError::MissingHashInput),
        },
{
    if index >= items.len() {
        return Err(CoreError::MissingHashInput);
    }
    Ok(ClassifiedCursor::hash_input(cursor_from_slice(items[index].as_slice())))
}

impl TransactionSource for InMemorySource {
    fn transaction_cursor(&self) -> (res: Result<ClassifiedCursor, CoreError>)
        ensures
            res matches Ok(r) && r.cursor@ == spec_bytes_cursor(self.transaction@)
                && r.read_context == CursorReadContext::SourceInput,
    {
        Ok(ClassifiedCursor::source_input(cursor_from_slice(self.transaction.as_slice())))
    }

    fn script_cursor(&self) -> (res: Result<ClassifiedCursor, CoreError>)
        ensures
            res matches Ok(r) && r.cursor@ == spec_bytes_cursor(self.script@)
                && r.read_context == CursorReadContext::SourceInput,
    {
        Ok(ClassifiedCursor::source_input(cursor_from_slice(self.script.as_slice())))
    }

    fn tx_hash(&self) -> (res: Result<[u8; 32], CoreError>)
        ensures
            res == Ok::<[u8; 32], CoreError>(self.tx_hash),
    {
        Ok(self.tx_hash)
    }

    fn input_lock_hash(&self, index: usize) -> (res: Result<[u8; 32], CoreError>)
        ensures
            index < self.input_locks@.len() ==> res == Ok::<[u8; 32], CoreError>(self.input_locks@[index as int]),
            index >= self.input_locks@.len() ==> res == Err::<[u8; 32], CoreError>(CoreError::InvalidContextInput),
    {
        if index >= self.input_locks.len() {
            return Err(CoreError::InvalidContextInput);
        }
        Ok(self.input_locks[index])
    }

    fn input_type_hash(&self, index: usize) -> (res: Result<Option<[u8; 32]>, CoreError>)
        ensures
            index < self.input_types@.len() ==> res == Ok::<Option<[u8; 32]>, CoreError>(self.input_types@[index as int]),
            index >= self.input_types@.len() ==> res == Err::<Option<[u8; 32]>, CoreError>(CoreError::InvalidContextInput),
    {
        if index >= self.input_types.len() {
            return Err(CoreError::InvalidContextInput);
        }
        Ok(self.input_types[index])
    }

    fn output_type_hash(&self, index: usize) -> (res: Result<Option<[u8; 32]>, CoreError>)
        ensures
            index < self.output_types@.len() ==> res == Ok::<Option<[u8; 32]>, CoreError>(self.output_types@[index as int]),
            index >= self.output_types@.len() ==> res == Err::<Option<[u8; 32]>, CoreError>(CoreError::InvalidContextInput),
    {
        if index >= self.output_types.len() {
            return Err(CoreError::InvalidContextInput);
        }
        Ok(self.output_types[index])
    }

    fn resolved_input_output_cursor(&self, index: usize) -> (res: Result<ClassifiedCursor, CoreError>)
        ensures
            match spec_item_cursor(self.resolved_outputs@, index as int) {
                Some(c) => res matches Ok(r) && r.cursor@ == c && r.read_context == CursorReadContext::HashInput,
                None => res == Err::<ClassifiedCursor, CoreError>(CoreError::MissingHashInput),
            },
    {
        hash_input_cursor(&self.resolved_outputs, index)
    }

    fn resolved_input_data_cursor(&self, index: usize) -> (res: Result<ClassifiedCursor, CoreError>)
        ensures
            match spec_item_cursor(self.resolved_data@, index as int) {
                Some(c) => res matches Ok(r) && r.cursor@ == c && r.read_context == CursorReadContext::HashInput,
                None => res == Err::<ClassifiedCursor, CoreError>(CoreError::MissingHashInput),
            },
    {
        hash_input_cursor(&self.resolved_data, index)
    }
}

impl InMemorySource {
    /// How many inputs, outputs, cell deps, header deps and witnesses the source holds.
    pub fn counts(&self) -> (res: Result<crate::loader::TxCounts, CoreError>)
        ensures
            res == Ok::<crate::loader::TxCounts, CoreError>(crate::loader::TxCounts {
                inputs: self.raw_inputs@.len() as usize,
                outputs: self.raw_outputs@.len() as usize,
                cell_deps: self.raw_cell_deps@.len() as usize,
                header_deps: self.raw_header_deps@.len() as usize,
                witnesses: self.witnesses@.len() as usize,
            }),
    {
        Ok(crate::loader::TxCounts {
            inputs: self.raw_inputs.len(),
            outputs: self.raw_outputs.len(),
            cell_deps: self.raw_cell_deps.len(),
            header_deps: self.raw_header_deps.len(),
            witnesses: self.witnesses.len(),
        })
    }
}

impl SigningDataSource for InMemorySource {
    fn input_count(&self) -> (res: Result<usize, CoreError>)
        ensures
            res == Ok::<usize, CoreError>(self.raw_inputs@.len() as usize),
    {
        Ok(self.raw_inputs.len())
    }

    fn witness_count(&self) -> (res: Result<usize, CoreError>)
        ensures
            res == Ok::<usize, CoreError>(self.witnesses@.len() as usize),
    {
        Ok(self.witnesses.len())
    }

    fn witness_cursor(&self, absolute_index: usize) -> (res: Result<ClassifiedCursor, CoreError>)
        ensures
            match spec_item_cursor(self.witnesses@, absolute_index as int) {
                Some(c) => res matches Ok(r) && r.cursor@ == c && r.read_context == CursorReadContext::HashInput,
                None => res == Err::<ClassifiedCursor, CoreError>(CoreError::MissingHashInput),
            },
    {
        hash_input_cursor(&self.witnesses, absolute_index)
    }

    fn raw_input_cursor(&self, index: usize) -> (res: Result<ClassifiedCursor, CoreError>)
        ensures
            match spec_item_cursor(self.raw_inputs@, index as int) {
                Some(c) => res matches Ok(r) && r.cursor@ == c && r.read_context == CursorReadContext::HashInput,
                None => res == Err::<ClassifiedCursor, CoreError>(CoreError::MissingHashInput),
            },
    {
        hash_input_cursor(&self.raw_inputs, index)
    }

    fn raw_output_cursor(&self, index: usize) -> (res: Result<ClassifiedCursor, CoreError>)
        ensures
            match spec_item_cursor(self.raw_outputs@, index as int) {
                Some(c) => res matches Ok(r) && r.cursor@ == c && r.read_context == CursorReadContext::HashInput,
                None => res == Err::<ClassifiedCursor, CoreError>(CoreError::MissingHashInput),
            },
    {
        hash_input_cursor(&self.raw_outputs, index)
    }

    fn raw_output_data_cursor(&self, index: usize) -> (res: Result<ClassifiedCursor, CoreError>)
        ensures
            match spec_item_cursor(self.raw_outputs_data@, index as int) {
                Some(c) => res matches Ok(r) && r.cursor@ == c && r.read_context == CursorReadContext::HashInput,
                None => res == Err::<ClassifiedCursor, CoreError>(CoreError::MissingHashInput),
            },
    {
        hash_input_cursor(&self.raw_outputs_data, index)
    }

    fn raw_cell_dep_cursor(&self, index: usize) -> (res: Result<ClassifiedCursor, CoreError>)
        ensures
            match spec_item_cursor(self.raw_cell_deps@, index as int) {
                Some(c) => res matches Ok(r) && r.cursor@ == c && r.read_context == CursorReadContext::HashInput,
                None => res == Err::<ClassifiedCursor, CoreError>(CoreError::MissingHashInput),
            },
    {
        hash_input_cursor(&self.raw_cell_deps, index)
    }

    fn raw_header_dep_hash(&self, index: usize) -> (res: Result<[u8; 32], CoreError>)
        ensures
            index < self.raw_header_deps@.len() ==> res == Ok::<[u8; 32], CoreError>(self.raw_header_deps@[index as int]),
            index >= self.raw_header_deps@.len() ==> res == Err::<[u8; 32], CoreError>(CoreError::MissingHashInput),
    {
        if index >= self.raw_header_deps.len() {
            return Err(CoreError::MissingHashInput);
        }
        Ok(self.raw_header_deps[index])
    }
}

} // verus!
