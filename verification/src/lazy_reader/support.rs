//! Molecule decoding primitives over an in-memory byte buffer.
//!
//! A [`Cursor`] is the window `[offset, offset + size)` into a shared buffer.
//! The window may extend past the buffer: molecule itself does not check that
//! nested offsets stay inside their parent, and a read only fails when it
//! reaches past the end of the buffer.

use vstd::prelude::*;

use crate::reader::OwnedReader;

verus! {

/// The size in bytes of a molecule length or offset number.
pub const NUMBER_SIZE: usize = 4;

/// Molecule decoding errors.
#[derive(Clone, Copy, Debug, PartialEq, Eq, Structural)]
pub enum Error {
    TotalSize(usize, usize),
    Header(usize, usize),
    UnknownItem,
    OutOfBound(usize, usize),
    FieldCount(usize),
    Overflow,
    Read(usize, usize),
    Verify,
}

/// The little-endian value of the four bytes of `d` at `i`.
pub open spec fn le32(d: Seq<u8>, i: int) -> int {
    d[i] as int + d[i + 1] as int * 256 + d[i + 2] as int * 65536 + d[i + 3] as int * 16777216
}

/// A four-byte little-endian number is below `2^32`.
pub proof fn lemma_le32_bound(d: Seq<u8>, i: int)
    requires
        0 <= i,
        i + 4 <= d.len(),
    ensures
        0 <= le32(d, i) <= 0xffff_ffff,
{
}

/// The little-endian value of the eight bytes of `d` at `i`.
pub open spec fn le64(d: Seq<u8>, i: int) -> int {
    le32(d, i) + le32(d, i + 4) * 4294967296
}

/// The abstract value of a cursor: the whole buffer, and the window into it.
pub struct CursorView {
    pub data: Seq<u8>,
    pub offset: int,
    pub size: int,
}

impl CursorView {
    /// The window moved forward by `delta` bytes, keeping its size.
    pub open spec fn shifted(self, delta: int) -> CursorView {
        CursorView { data: self.data, offset: self.offset + delta, size: self.size }
    }

    /// The window `[offset + start, offset + start + size)`.
    pub open spec fn window(self, start: int, size: int) -> CursorView {
        CursorView { data: self.data, offset: self.offset + start, size }
    }

    /// `len` bytes at `start` (relative to the window) lie inside the buffer.
    pub open spec fn in_buffer(self, start: int, len: int) -> bool {
        self.offset + start + len <= self.data.len()
    }

    /// The bytes of the window, when it lies inside the buffer.
    pub open spec fn bytes(self) -> Seq<u8> {
        if self.size == 0 {
            Seq::empty()
        } else {
            self.data.subrange(self.offset, self.offset + self.size)
        }
    }

    /// The window can be read whole.
    pub open spec fn readable(self) -> bool {
        self.size == 0 || self.in_buffer(0, self.size)
    }

    /// The number at the start of the window, if the window holds one.
    pub open spec fn number(self) -> Option<int> {
        if self.size >= 4 && self.in_buffer(0, 4) {
            Some(le32(self.data, self.offset))
        } else {
            None
        }
    }

    /// The number `k` positions (of four bytes) into the window, read as molecule
    /// reads header entries: the cursor keeps its size while its offset moves.
    pub open spec fn header_entry(self, k: int) -> int {
        le32(self.data, self.offset + 4 * k)
    }

    /// The header offsets of a dynvec with `count` items are in non-decreasing order.
    pub open spec fn offsets_sorted(self, count: int) -> bool {
        forall|k: int| 1 <= k < count ==> self.header_entry(k) <= #[trigger] self.header_entry(k + 1)
    }

    /// The window is a well-formed molecule dynvec (or table).
    #[verifier::opaque]
    pub open spec fn valid_dynvec(self) -> bool {
        &&& self.number() == Some(self.size)
        &&& (self.size == 4 || {
            let first = self.header_entry(1);
            &&& self.size >= 8
            &&& self.in_buffer(0, 8)
            &&& first % 4 == 0
            &&& first >= 8
            &&& self.size >= first
            &&& self.in_buffer(0, first)
            &&& self.offsets_sorted(first / 4 - 1)
        })
    }

    /// The number of fields of a table whose header is well formed.
    pub open spec fn table_field_count(self) -> int {
        if self.size == 4 {
            0
        } else {
            self.header_entry(1) / 4 - 1
        }
    }

    /// The window is a molecule table with `expected` fields (at least
    /// `expected` fields when `compatible`).
    #[verifier::opaque]
    pub open spec fn valid_table(self, expected: int, compatible: bool) -> bool {
        &&& self.valid_dynvec()
        &&& if self.size == 4 {
            expected == 0
        } else {
            let count = self.table_field_count();
            count >= expected && (compatible || count <= expected)
        }
    }

    /// The item count encoded by the first number of the window, read as a
    /// header size.
    #[verifier::opaque]
    pub open spec fn item_count(self) -> Option<int> {
        match self.number() {
            Some(len) => if len % 4 == 0 && len / 4 != 0 {
                Some(len / 4 - 1)
            } else {
                None
            },
            None => None,
        }
    }

    /// The item count of a dynvec.
    #[verifier::opaque]
    pub open spec fn dynvec_length(self) -> Option<int> {
        if self.size == 4 {
            Some(0)
        } else if self.size >= 4 && self.offset + 4 <= usize::MAX {
            CursorView { data: self.data, offset: self.offset + 4, size: self.size - 4 }.item_count()
        } else {
            None
        }
    }

    /// Item `i` of a dynvec, or field `i` of a table.
    #[verifier::opaque]
    pub open spec fn dynvec_item(self, i: int) -> Option<CursorView> {
        match (self.number(), self.shifted(4).item_count()) {
            (Some(total), Some(count)) => {
                if i < 0 || i >= count {
                    None
                } else if !self.in_buffer(4 * (i + 1), 4) {
                    None
                } else {
                    let start = self.header_entry(i + 1);
                    if self.offset + start > usize::MAX {
                        None
                    } else if i + 1 == count {
                        if total >= start {
                            Some(self.window(start, total - start))
                        } else {
                            None
                        }
                    } else if !self.in_buffer(4 * (i + 2), 4) {
                        None
                    } else {
                        let end = self.header_entry(i + 2);
                        if end >= start {
                            Some(self.window(start, end - start))
                        } else {
                            None
                        }
                    }
                }
            },
            _ => None,
        }
    }

    /// The payload of a molecule `Bytes` (a fixvec of bytes).
    #[verifier::opaque]
    pub open spec fn raw_bytes(self) -> Option<CursorView> {
        match self.number() {
            Some(n) => if 4 + n <= self.size && self.offset + 4 <= usize::MAX {
                Some(self.window(4, n))
            } else {
                None
            },
            None => None,
        }
    }

    /// The window holds exactly `n` readable bytes.
    pub open spec fn exact_bytes(self, n: int) -> bool {
        self.size == n && self.in_buffer(0, n)
    }

    /// The window starts with `n` readable bytes.
    pub open spec fn leading_bytes(self, n: int) -> bool {
        self.size >= n && self.in_buffer(0, n)
    }

    /// The first byte of the window.
    pub open spec fn first_byte(self) -> u8 {
        self.data[self.offset]
    }

    /// The window with its union item id removed.
    pub open spec fn union_item(self) -> CursorView {
        CursorView { data: self.data, offset: self.offset + 4, size: self.size - 4 }
    }

    /// The window is a fixvec of items of `item_size` bytes.
    #[verifier::opaque]
    pub open spec fn valid_fixvec(self, item_size: int) -> bool {
        &&& self.size >= 4
        &&& self.number() is Some
        &&& {
            let count = self.number()->0;
            if count == 0 {
                self.size == 4
            } else {
                item_size * count + 4 <= usize::MAX && self.size == item_size * count + 4
            }
        }
    }

    /// Item `i` of a fixvec of items of `item_size` bytes.
    #[verifier::opaque]
    pub open spec fn fixvec_item(self, item_size: int, i: int) -> Option<CursorView> {
        match self.number() {
            Some(count) => if 0 <= i < count && item_size * i + 4 + item_size <= self.size
                && self.offset + item_size * i + 4 <= usize::MAX {
                Some(self.window(item_size * i + 4, item_size))
            } else {
                None
            },
            None => None,
        }
    }
}

/// The 32 bytes of field `i` of a table, if it holds exactly that many.
pub open spec fn field_byte32(c: CursorView, i: int) -> Option<Seq<u8>> {
    match c.dynvec_item(i) {
        Some(f) => if f.exact_bytes(32) {
            Some(f.bytes())
        } else {
            None
        },
        None => None,
    }
}

/// The byte of field `i` of a table.
pub open spec fn field_u8(c: CursorView, i: int) -> Option<u8> {
    match c.dynvec_item(i) {
        Some(f) => if f.leading_bytes(1) {
            Some(f.first_byte())
        } else {
            None
        },
        None => None,
    }
}

/// The `Uint32` of field `i` of a table.
pub open spec fn field_u32(c: CursorView, i: int) -> Option<int> {
    match c.dynvec_item(i) {
        Some(f) => if f.leading_bytes(4) {
            Some(le32(f.data, f.offset))
        } else {
            None
        },
        None => None,
    }
}

/// The `Uint64` of field `i` of a table.
pub open spec fn field_u64(c: CursorView, i: int) -> Option<int> {
    match c.dynvec_item(i) {
        Some(f) => if f.leading_bytes(8) {
            Some(le64(f.data, f.offset))
        } else {
            None
        },
        None => None,
    }
}

/// The payload of the `Bytes` field `i` of a table.
pub open spec fn field_raw_bytes(c: CursorView, i: int) -> Option<CursorView> {
    match c.dynvec_item(i) {
        Some(f) => f.raw_bytes(),
        None => None,
    }
}

/// A window `[offset, offset + size)` into a shared byte buffer.
#[derive(Clone, Debug)]
pub struct Cursor {
    pub offset: usize,
    pub size: usize,
    pub reader: OwnedReader,
}

impl View for Cursor {
    type V = CursorView;

    open spec fn view(&self) -> CursorView {
        CursorView { data: self.reader@, offset: self.offset as int, size: self.size as int }
    }
}

/// Reads the little-endian number at `pos`, if four bytes lie there.
fn le32_at(data: &Vec<u8>, pos: usize) -> (res: Option<u32>)
    ensures
        res is Some <==> pos + 4 <= data@.len(),
        res matches Some(v) ==> v as int == le32(data@, pos as int),
{
    if pos > data.len() || data.len() - pos < 4 {
        return None;
    }
    let v: u32 = data[pos] as u32 + data[pos + 1] as u32 * 256 + data[pos + 2] as u32 * 65536
        + data[pos + 3] as u32 * 16777216;
    Some(v)
}

impl Cursor {
    /// A cursor over all of `size` bytes of `reader`'s buffer, from its start.
    pub fn new(size: usize, reader: OwnedReader) -> (res: Cursor)
        ensures
            res@ == (CursorView { data: reader@, offset: 0, size: size as int }),
    {
        Cursor { offset: 0, size, reader }
    }

    /// A copy of this cursor, sharing nothing with it.
    pub fn duplicate(&self) -> (res: Cursor)
        ensures
            res@ == self@,
    {
        Cursor { offset: self.offset, size: self.size, reader: self.reader.duplicate() }
    }

    /// The same buffer with another window.
    fn with_window(&self, offset: usize, size: usize) -> (res: Cursor)
        ensures
            res@ == (CursorView { data: self@.data, offset: offset as int, size: size as int }),
    {
        Cursor { offset, size, reader: self.reader.duplicate() }
    }

    fn data(&self) -> (res: &Vec<u8>)
        ensures
            res@ == self@.data,
    {
        self.reader.bytes_ref()
    }

    /// The first number of the window (molecule `unpack_number`).
    pub fn unpack_number(&self) -> (res: Result<usize, Error>)
        ensures
            res is Ok <==> self@.number() is Some,
            res matches Ok(v) ==> self@.number() == Some(v as int),
    {
        if self.size < 4 {
            return Err(Error::FieldCount(self.size));
        }
        match le32_at(self.data(), self.offset) {
            Some(v) => Ok(v as usize),
            None => Err(Error::Read(0, 4)),
        }
    }

    /// The window has exactly `size` bytes.
    pub fn verify_fixed_size(&self, size: usize) -> (res: Result<(), Error>)
        ensures
            res is Ok <==> self.size == size,
    {
        if self.size != size {
            return Err(Error::Header(self.size, size));
        }
        Ok(())
    }

    /// The window is a well-formed molecule dynvec.
    pub fn verify_dynvec(&self) -> (res: Result<(), Error>)
        ensures
            res is Ok <==> self@.valid_dynvec(),
    {
        reveal(CursorView::valid_dynvec);
        let total_size = self.unpack_number()?;
        if self.size != total_size {
            return Err(Error::Verify);
        }
        if total_size == NUMBER_SIZE {
            return Ok(());
        }
        if total_size < NUMBER_SIZE * 2 {
            return Err(Error::Verify);
        }
        let data = self.data();
        let len = data.len();
        if self.offset > usize::MAX - 4 {
            return Err(Error::Overflow);
        }
        let first_offset = match le32_at(data, self.offset + 4) {
            Some(v) => v as usize,
            None => return Err(Error::Read(0, 4)),
        };
        if first_offset % NUMBER_SIZE != 0 || first_offset < NUMBER_SIZE * 2 {
            return Err(Error::Verify);
        }
        if total_size < first_offset {
            return Err(Error::Verify);
        }
        let count = first_offset / 4 - 1;
        let ghost v = self@;
        let mut last: u32 = 0;
        let mut k: usize = 0;
        while k < count
            invariant
                v == self@,
                data@ == v.data,
                count == first_offset / 4 - 1,
                first_offset == v.header_entry(1),
                first_offset % 4 == 0,
                first_offset >= 8,
                v.size >= first_offset,
                v.offset + 8 <= v.data.len(),
                v.data.len() == len,
                0 <= k <= count,
                k > 0 ==> last as int == v.header_entry(k as int),
                forall|j: int| 1 <= j < k ==> v.header_entry(j) <= #[trigger] v.header_entry(j + 1),
                k > 0 ==> v.in_buffer(4 * k, 4),
            decreases count - k,
        {
            if self.offset > usize::MAX - 4 * (k + 1) {
                proof {
                    reveal(CursorView::valid_dynvec);
                    assert(!v.in_buffer(0, first_offset as int));
                }
                return Err(Error::Overflow);
            }
            let pos = self.offset + 4 * (k + 1);
            let entry = match le32_at(data, pos) {
                Some(e) => e,
                None => {
                    proof {
                        reveal(CursorView::valid_dynvec);
                        assert(!v.in_buffer(0, first_offset as int));
                    }
                    return Err(Error::Read(0, 4));
                },
            };
            if k > 0 && last > entry {
                proof {
                    reveal(CursorView::valid_dynvec);
                    assert(v.header_entry(k + 1) == entry);
                    assert(!v.offsets_sorted(count as int));
                }
                return Err(Error::Verify);
            }
            last = entry;
            k = k + 1;
        }
        proof {
            assert(v.in_buffer(4 * count, 4));
            assert(4 * count + 4 == first_offset);
        }
        Ok(())
    }

    /// The window is a molecule table with `expected_field_count` fields, or
    /// at least that many when `compatible`.
    pub fn verify_table(&self, expected_field_count: usize, compatible: bool) -> (res: Result<(), Error>)
        ensures
            res is Ok <==> self@.valid_table(expected_field_count as int, compatible),
    {
        reveal(CursorView::valid_table);
        reveal(CursorView::valid_dynvec);
        self.verify_dynvec()?;
        let total_size = self.unpack_number()?;
        if total_size == NUMBER_SIZE {
            if expected_field_count == 0 {
                return Ok(());
            } else {
                return Err(Error::Verify);
            }
        }
        let len = self.data().len();
        let first_offset = match le32_at(self.data(), self.offset + 4) {
            Some(v) => v as usize,
            None => return Err(Error::Read(0, 4)),
        };
        let field_count = first_offset / NUMBER_SIZE - 1;
        if field_count < expected_field_count || !compatible && field_count > expected_field_count {
            return Err(Error::Verify);
        }
        Ok(())
    }

    /// The window is a fixvec of items of `item_size` bytes.
    pub fn verify_fixvec(&self, item_size: usize) -> (res: Result<(), Error>)
        ensures
            res is Ok <==> self@.valid_fixvec(item_size as int),
    {
        reveal(CursorView::valid_fixvec);
        if self.size < NUMBER_SIZE {
            return Err(Error::Verify);
        }
        let item_count = self.unpack_number()?;
        if item_count == 0 {
            if self.size == NUMBER_SIZE {
                return Ok(());
            } else {
                return Err(Error::Verify);
            }
        }
        let total_size = match calculate_offset(item_size, item_count, NUMBER_SIZE) {
            Some(t) => t,
            None => return Err(Error::Overflow),
        };
        if self.size == total_size {
            Ok(())
        } else {
            Err(Error::Verify)
        }
    }

    /// The window is empty, which encodes an absent molecule option.
    pub fn option_is_none(&self) -> (res: bool)
        ensures
            res == (self.size == 0),
    {
        self.size == 0
    }

    /// The item count of a fixvec.
    pub fn fixvec_length(&self) -> (res: Result<usize, Error>)
        ensures
            res is Ok <==> self@.number() is Some,
            res matches Ok(v) ==> self@.number() == Some(v as int),
    {
        self.unpack_number()
    }

    /// The item count named by the first number of the window, read as a header size.
    pub fn get_item_count(&self) -> (res: Result<usize, Error>)
        ensures
            res is Ok <==> self@.item_count() is Some,
            res matches Ok(v) ==> self@.item_count() == Some(v as int),
    {
        reveal(CursorView::item_count);
        let len = self.unpack_number()?;
        if len % 4 != 0 {
            return Err(Error::UnknownItem);
        }
        let count = len / 4;
        if count == 0 {
            Err(Error::UnknownItem)
        } else {
            Ok(count - 1)
        }
    }

    /// The item count of a dynvec.
    pub fn dynvec_length(&self) -> (res: Result<usize, Error>)
        ensures
            res is Ok <==> self@.dynvec_length() is Some,
            res matches Ok(v) ==> self@.dynvec_length() == Some(v as int),
    {
        reveal(CursorView::dynvec_length);
        if self.size == NUMBER_SIZE {
            Ok(0)
        } else {
            let rest = self.slice_by_start(NUMBER_SIZE)?;
            rest.get_item_count()
        }
    }

    /// The field count of a table (molecule `table_actual_field_count`).
    pub fn table_actual_field_count(&self) -> (res: Result<usize, Error>)
        ensures
            res is Ok <==> self@.dynvec_length() is Some,
            res matches Ok(v) ==> self@.dynvec_length() == Some(v as int),
    {
        self.dynvec_length()
    }

    /// The window `[offset + start, offset + start + size)`, which must fit in this window.
    pub fn slice_by_offset(&self, start: usize, size: usize) -> (res: Result<Cursor, Error>)
        ensures
            res is Ok <==> (start + size <= self.size && self.offset + start <= usize::MAX),
            res matches Ok(c) ==> c@ == self@.window(start as int, size as int),
    {
        if start > self.size || size > self.size - start {
            return Err(Error::TotalSize(start, size));
        }
        if self.offset > usize::MAX - start {
            return Err(Error::Overflow);
        }
        Ok(self.with_window(self.offset + start, size))
    }

    /// The window with its first `delta` bytes removed.
    pub fn slice_by_start(&self, delta: usize) -> (res: Result<Cursor, Error>)
        ensures
            res is Ok <==> (self.offset + delta <= usize::MAX && delta <= self.size),
            res matches Ok(c) ==> c@ == self@.window(delta as int, self.size - delta),
    {
        if self.offset > usize::MAX - delta {
            return Err(Error::Overflow);
        }
        if delta > self.size {
            return Err(Error::Overflow);
        }
        Ok(self.with_window(self.offset + delta, self.size - delta))
    }

    /// Item `item_index` of a fixvec of items of `item_size` bytes.
    pub fn fixvec_slice_by_index(&self, item_size: usize, item_index: usize) -> (res: Result<Cursor, Error>)
        ensures
            res is Ok <==> self@.fixvec_item(item_size as int, item_index as int) is Some,
            res matches Ok(c) ==> self@.fixvec_item(item_size as int, item_index as int) == Some(c@),
    {
        reveal(CursorView::fixvec_item);
        let item_count = self.unpack_number()?;
        if item_index >= item_count {
            return Err(Error::OutOfBound(item_index, item_count));
        }
        let start = match calculate_offset(item_size, item_index, NUMBER_SIZE) {
            Some(s) => s,
            None => {
                proof {
                    assert(item_size * item_index + 4 > usize::MAX);
                    assert(item_size * item_index + 4 + item_size > self.size) by (nonlinear_arith)
                        requires
                            item_size * item_index + 4 > usize::MAX,
                            self.size <= usize::MAX,
                            item_size >= 0,
                    ;
                }
                return Err(Error::Overflow);
            },
        };
        self.slice_by_offset(start, item_size)
    }

    /// Item `item_index` of a dynvec.
    pub fn dynvec_slice_by_index(&self, item_index: usize) -> (res: Result<Cursor, Error>)
        ensures
            res is Ok <==> self@.dynvec_item(item_index as int) is Some,
            res matches Ok(c) ==> self@.dynvec_item(item_index as int) == Some(c@),
    {
        reveal(CursorView::dynvec_item);
        reveal(CursorView::item_count);
        let total_size = self.unpack_number()?;
        let data = self.data();
        let len = data.len();
        let shifted = Cursor { offset: self.offset + 4, size: self.size, reader: self.reader.duplicate() };
        let item_count = shifted.get_item_count()?;
        if item_index >= item_count {
            return Err(Error::OutOfBound(item_index, item_count));
        }
        proof {
            lemma_le32_bound(self@.data, self@.offset + 4);
        }
        if self.offset > usize::MAX - 4 * (item_index + 1) {
            return Err(Error::Overflow);
        }
        let start_pos = self.offset + 4 * (item_index + 1);
        let item_start = match le32_at(data, start_pos) {
            Some(v) => v as usize,
            None => return Err(Error::Read(0, 4)),
        };
        if self.offset > usize::MAX - item_start {
            return Err(Error::Overflow);
        }
        if item_index + 1 == item_count {
            if total_size < item_start {
                return Err(Error::Overflow);
            }
            Ok(self.with_window(self.offset + item_start, total_size - item_start))
        } else {
            if self.offset > usize::MAX - 4 * (item_index + 2) {
                return Err(Error::Overflow);
            }
            let end_pos = self.offset + 4 * (item_index + 2);
            let item_end = match le32_at(data, end_pos) {
                Some(v) => v as usize,
                None => return Err(Error::Read(0, 4)),
            };
            if item_end < item_start {
                return Err(Error::Overflow);
            }
            Ok(self.with_window(self.offset + item_start, item_end - item_start))
        }
    }

    /// Field `field_index` of a table.
    pub fn table_slice_by_index(&self, field_index: usize) -> (res: Result<Cursor, Error>)
        ensures
            res is Ok <==> self@.dynvec_item(field_index as int) is Some,
            res matches Ok(c) ==> self@.dynvec_item(field_index as int) == Some(c@),
    {
        self.dynvec_slice_by_index(field_index)
    }

    /// The payload of a molecule `Bytes`, without its length header.
    pub fn convert_to_rawbytes(&self) -> (res: Result<Cursor, Error>)
        ensures
            res is Ok <==> self@.raw_bytes() is Some,
            res matches Ok(c) ==> self@.raw_bytes() == Some(c@),
    {
        reveal(CursorView::raw_bytes);
        let n = self.unpack_number()?;
        self.slice_by_offset(NUMBER_SIZE, n)
    }

    /// The union item id and the item it tags.
    pub fn union_unpack(&self) -> (res: Result<(usize, Cursor), Error>)
        ensures
            res is Ok <==> self@.number() is Some,
            res matches Ok((id, c)) ==> self@.number() == Some(id as int) && c@ == self@.union_item(),
    {
        let item_id = self.unpack_number()?;
        let _ = self.data().len();
        let cursor = self.slice_by_start(NUMBER_SIZE)?;
        Ok((item_id, cursor))
    }

    /// The window's bytes, when it lies inside the buffer.
    pub fn read_all(&self) -> (res: Result<Vec<u8>, Error>)
        ensures
            res is Ok <==> self@.readable(),
            res matches Ok(b) ==> b@ == self@.bytes(),
    {
        let data = self.data();
        if self.size == 0 {
            proof {
                assert(self@.bytes() =~= Seq::<u8>::empty());
            }
            return Ok(Vec::new());
        }
        if self.offset > data.len() || self.size > data.len() - self.offset {
            return Err(Error::Read(0, self.size));
        }
        let mut out: Vec<u8> = Vec::with_capacity(self.size);
        let mut i: usize = 0;
        while i < self.size
            invariant
                data@ == self@.data,
                self.offset + self.size <= data@.len(),
                data@.len() <= usize::MAX,
                0 <= i <= self.size,
                out@ =~= data@.subrange(self.offset as int, self.offset + i),
            decreases self.size - i,
        {
            out.push(data[self.offset + i]);
            i = i + 1;
        }
        Ok(out)
    }

    /// The single byte a `byte` field holds (molecule reads its first byte).
    pub fn read_u8(&self) -> (res: Result<u8, Error>)
        ensures
            res is Ok <==> self@.leading_bytes(1),
            res matches Ok(v) ==> v == self@.first_byte(),
    {
        let data = self.data();
        if self.size < 1 || self.offset >= data.len() {
            return Err(Error::FieldCount(1));
        }
        Ok(data[self.offset])
    }

    /// The `Uint32` a field holds (molecule reads its first four bytes).
    pub fn read_u32(&self) -> (res: Result<u32, Error>)
        ensures
            res is Ok <==> self@.leading_bytes(4),
            res matches Ok(v) ==> v as int == le32(self@.data, self@.offset),
    {
        if self.size < 4 {
            return Err(Error::FieldCount(4));
        }
        match le32_at(self.data(), self.offset) {
            Some(v) => Ok(v),
            None => Err(Error::FieldCount(4)),
        }
    }

    /// The `Uint64` a field holds (molecule reads its first eight bytes).
    pub fn read_u64(&self) -> (res: Result<u64, Error>)
        ensures
            res is Ok <==> self@.leading_bytes(8),
            res matches Ok(v) ==> v as int == le64(self@.data, self@.offset),
    {
        if self.size < 8 {
            return Err(Error::FieldCount(8));
        }
        let data = self.data();
        let _ = data.len();
        let lo = match le32_at(data, self.offset) {
            Some(v) => v,
            None => return Err(Error::FieldCount(8)),
        };
        if self.offset > usize::MAX - 4 {
            return Err(Error::FieldCount(8));
        }
        let hi = match le32_at(data, self.offset + 4) {
            Some(v) => v,
            None => return Err(Error::FieldCount(8)),
        };
        Ok(lo as u64 + hi as u64 * 4294967296)
    }

    /// The 32 bytes of a `Byte32` field, which must hold exactly that many.
    pub fn read_byte32(&self) -> (res: Result<[u8; 32], Error>)
        ensures
            res is Ok <==> self@.exact_bytes(32),
            res matches Ok(v) ==> v@ == self@.bytes(),
    {
        let data = self.data();
        if self.size != 32 || self.offset > data.len() || data.len() - self.offset < 32 {
            return Err(Error::Read(0, 32));
        }
        let mut out = [0u8; 32];
        let mut i: usize = 0;
        while i < 32
            invariant
                data@ == self@.data,
                self.offset + 32 <= data@.len(),
                data@.len() <= usize::MAX,
                self.size == 32,
                0 <= i <= 32,
                out@.len() == 32,
                forall|j: int| 0 <= j < i ==> out@[j] == data@[self.offset + j],
            decreases 32 - i,
        {
            out[i] = data[self.offset + i];
            i = i + 1;
        }
        proof {
            assert(out@ =~= self@.bytes());
        }
        Ok(out)
    }
}

/// `item_size * item_count + offset`, unless it overflows.
fn calculate_offset(item_size: usize, item_count: usize, offset: usize) -> (res: Option<usize>)
    ensures
        res is Some <==> item_size * item_count + offset <= usize::MAX,
        res matches Some(v) ==> v == item_size * item_count + offset,
{
    if item_count != 0 && item_size > usize::MAX / item_count {
        proof {
            assert(item_size * item_count > usize::MAX) by (nonlinear_arith)
                requires
                    item_count != 0,
                    item_size > usize::MAX / item_count,
            ;
        }
        return None;
    }
    proof {
        assert(item_size * item_count <= usize::MAX) by (nonlinear_arith)
            requires
                item_count == 0 || item_size <= usize::MAX / item_count,
        ;
    }
    let product = item_size * item_count;
    if product > usize::MAX - offset {
        return None;
    }
    Some(product + offset)
}

} // verus!
