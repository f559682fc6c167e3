//! Byte buffers behind cursors, and reading cursors out into byte vectors.

use vstd::prelude::*;

use crate::error::CoreError;
use crate::hash::{spec_chunk, spec_count_bytes, spec_then};
use crate::lazy_reader::support::{Cursor, CursorView, Error as MoleculeError};

verus! {

/// An owned byte buffer that cursors read from.
#[derive(Clone, Debug)]
pub struct OwnedReader {
    data: Vec<u8>,
}

impl View for OwnedReader {
    type V = Seq<u8>;

    closed spec fn view(&self) -> Seq<u8> {
        self.data@
    }
}

/// A copy of `bytes`.
pub fn copy_bytes(bytes: &[u8]) -> (res: Vec<u8>)
    ensures
        res@ == bytes@,
{
    let mut out: Vec<u8> = Vec::with_capacity(bytes.len());
    let mut i: usize = 0;
    while i < bytes.len()
        invariant
            0 <= i <= bytes@.len(),
            out@ =~= bytes@.subrange(0, i as int),
        decreases bytes@.len() - i,
    {
        out.push(bytes[i]);
        i = i + 1;
    }
    proof {
        assert(out@ =~= bytes@);
    }
    out
}

impl OwnedReader {
    /// A reader over a copy of `data`.
    pub fn new(data: &[u8]) -> (res: OwnedReader)
        ensures
            res@ == data@,
    {
        OwnedReader { data: copy_bytes(data) }
    }

    /// A reader over `data`.
    pub fn from_vec(data: Vec<u8>) -> (res: OwnedReader)
        ensures
            res@ == data@,
    {
        OwnedReader { data }
    }

    pub fn duplicate(&self) -> (res: OwnedReader)
        ensures
            res@ == self@,
    {
        OwnedReader { data: copy_bytes(self.data.as_slice()) }
    }

    pub fn bytes_ref(&self) -> (res: &Vec<u8>)
        ensures
            res@ == self@,
    {
        &self.data
    }

    /// Copies the bytes from `offset` on into the front of `buf`, as many as
    /// fit, and returns how many were copied.
    pub fn read(&self, buf: &mut Vec<u8>, offset: usize) -> (res: Result<usize, MoleculeError>)
        ensures
            final(buf)@.len() == old(buf)@.len(),
            offset >= self@.len() ==> res == Err::<usize, MoleculeError>(
                MoleculeError::OutOfBound(offset, self@.len() as usize),
            ),
            offset < self@.len() ==> {
                let n = if old(buf)@.len() <= self@.len() - offset {
                    old(buf)@.len() as int
                } else {
                    self@.len() - offset
                };
                &&& res == Ok::<usize, MoleculeError>(n as usize)
                &&& final(buf)@ == self@.subrange(offset as int, offset + n) + old(buf)@.subrange(
                    n,
                    old(buf)@.len() as int,
                )
            },
    {
        if offset >= self.data.len() {
            return Err(MoleculeError::OutOfBound(offset, self.data.len()));
        }
        let available = self.data.len() - offset;
        let read_len = if buf.len() <= available {
            buf.len()
        } else {
            available
        };
        let ghost old_buf = buf@;
        let mut i: usize = 0;
        while i < read_len
            invariant
                read_len <= buf@.len(),
                buf@.len() == old_buf.len(),
                offset + read_len <= self@.len(),
                self.data@ == self@,
                self.data@.len() <= usize::MAX,
                0 <= i <= read_len,
                forall|j: int| 0 <= j < i ==> buf@[j] == self@[offset + j],
                forall|j: int| i <= j < buf@.len() ==> buf@[j] == old_buf[j],
            decreases read_len - i,
        {
            buf.set(i, self.data[offset + i]);
            i = i + 1;
        }
        proof {
            assert(buf@ =~= self@.subrange(offset as int, offset + read_len) + old_buf.subrange(
                read_len as int,
                old_buf.len() as int,
            ));
        }
        Ok(read_len)
    }
}

/// Whether two 32-byte hashes are equal.
pub fn hash32_eq(a: &[u8; 32], b: &[u8; 32]) -> (res: bool)
    ensures
        res == (a@ == b@),
{
    let mut i: usize = 0;
    while i < 32
        invariant
            0 <= i <= 32,
            a@.len() == 32,
            b@.len() == 32,
            forall|j: int| 0 <= j < i ==> a@[j] == b@[j],
        decreases 32 - i,
    {
        if a[i] != b[i] {
            return false;
        }
        i = i + 1;
    }
    proof {
        assert(a@ =~= b@);
    }
    true
}

/// A cursor over the whole of a copy of `data`.
pub fn cursor_from_slice(data: &[u8]) -> (res: Cursor)
    ensures
        res@ == (CursorView { data: data@, offset: 0, size: data@.len() as int }),
{
    Cursor::new(data.len(), OwnedReader::new(data))
}

/// The bytes a cursor spans; a cursor reaching past its buffer is malformed.
pub fn cursor_bytes(cursor: &Cursor) -> (res: Result<Vec<u8>, CoreError>)
    ensures
        res is Ok <==> cursor@.readable(),
        res matches Ok(b) ==> b@ == cursor@.bytes(),
        res matches Err(e) ==> e == CoreError::MalformedCobuild,
{
    cursor_bytes_with_error(cursor, CoreError::MalformedCobuild)
}

/// The bytes a cursor spans, or `read_error` if it reaches past its buffer.
pub fn cursor_bytes_with_error(cursor: &Cursor, read_error: CoreError) -> (res: Result<Vec<u8>, CoreError>)
    ensures
        res is Ok <==> cursor@.readable(),
        res matches Ok(b) ==> b@ == cursor@.bytes(),
        res matches Err(e) ==> e == read_error,
{
    match cursor.read_all() {
        Ok(bytes) => Ok(bytes),
        Err(_) => Err(read_error),
    }
}


/// Feeds the bytes a cursor spans to a hash input, `hasher` being the bytes
/// fed so far; `read_error` if the cursor reaches past its buffer, with
/// nothing fed.
pub fn update_cursor_with_error(hasher: &mut Vec<u8>, cursor: &Cursor, read_error: CoreError) -> (res: Result<(), CoreError>)
    ensures
        match spec_chunk(cursor@, read_error) {
            Ok(b) => res is Ok && final(hasher)@ == old(hasher)@ + b,
            Err(e) => res == Err::<(), CoreError>(e) && final(hasher)@ == old(hasher)@,
        },
{
    let bytes = cursor_bytes_with_error(cursor, read_error)?;
    let mut i: usize = 0;
    let ghost start = hasher@;
    while i < bytes.len()
        invariant
            0 <= i <= bytes@.len(),
            hasher@ == start + bytes@.take(i as int),
        decreases bytes@.len() - i,
    {
        hasher.push(bytes[i]);
        proof {
            assert(bytes@.take(i + 1) =~= bytes@.take(i as int).push(bytes@[i as int]));
        }
        i = i + 1;
    }
    proof {
        assert(bytes@.take(bytes@.len() as int) =~= bytes@);
    }
    Ok(())
}

/// Feeds the bytes a cursor spans to a hash input; a cursor reaching past its
/// buffer is malformed.
pub fn update_cursor(hasher: &mut Vec<u8>, cursor: &Cursor) -> (res: Result<(), CoreError>)
    ensures
        match spec_chunk(cursor@, CoreError::MalformedCobuild) {
            Ok(b) => res is Ok && final(hasher)@ == old(hasher)@ + b,
            Err(e) => res == Err::<(), CoreError>(e) && final(hasher)@ == old(hasher)@,
        },
{
    update_cursor_with_error(hasher, cursor, CoreError::MalformedCobuild)
}

/// Feeds the 32-bit little-endian length of a cursor's span, then its bytes,
/// to a hash input. A span past 32 bits is too large to hash; a cursor
/// reaching past its buffer gives `read_error`.
pub fn update_len_prefixed_cursor(hasher: &mut Vec<u8>, cursor: &Cursor, read_error: CoreError) -> (res: Result<(), CoreError>)
    ensures
        match spec_then(spec_count_bytes(cursor@.size), spec_chunk(cursor@, read_error)) {
            Ok(b) => res is Ok && final(hasher)@ == old(hasher)@ + b,
            Err(e) => res == Err::<(), CoreError>(e),
        },
{
    let prefix = crate::hash::checked_len_prefix(cursor.size)?;
    let ghost start = hasher@;
    crate::hash::append_bytes(hasher, &prefix);
    let ghost mid = hasher@;
    update_cursor_with_error(hasher, cursor, read_error)?;
    proof {
        assert(hasher@ =~= start + (prefix@ + cursor@.bytes()));
    }
    Ok(())
}

} // verus!
