//! Front-to-back walks over the item vectors of the Cobuild schema.

use vstd::prelude::*;

use super::cobuild::{Action, ActionVec, LockSeal, LockSealVec, OtxAppendSegment, OtxAppendSegmentVec};
use super::support::CursorView;

verus! {

/// Every item of the `ActionVec` up to its length can be located.
pub open spec fn spec_action_vec_items_present(c: CursorView) -> bool {
    &&& c.dynvec_length() is Some
    &&& forall|i: int| 0 <= i < c.dynvec_length()->0 ==> (#[trigger] c.dynvec_item(i)) is Some
}

/// An owning walk over the items of a `ActionVec`, front to back.
#[derive(Clone, Debug)]
pub struct ActionVecIterator {
    cur: ActionVec,
    index: usize,
    len: usize,
}

impl ActionVecIterator {
    /// The vector being walked.
    pub closed spec fn source(&self) -> CursorView {
        self.cur.cursor@
    }

    /// How many items have been handed out.
    pub closed spec fn position(&self) -> int {
        self.index as int
    }

    /// The walk is over a vector whose items can all be located, and has not run past its end.
    pub closed spec fn wf(&self) -> bool {
        &&& spec_action_vec_items_present(self.cur.cursor@)
        &&& self.cur.cursor@.dynvec_length() == Some(self.len as int)
        &&& self.index <= self.len
    }

    /// The next item, or `None` once every item has been handed out.
    pub fn next(&mut self) -> (res: Option<Action>)
        requires
            old(self).wf(),
        ensures
            final(self).wf(),
            final(self).source() == old(self).source(),
            old(self).position() < old(self).source().dynvec_length()->0 ==> {
                &&& res matches Some(item) && old(self).source().dynvec_item(old(self).position()) == Some(item.cursor@)
                &&& final(self).position() == old(self).position() + 1
            },
            old(self).position() >= old(self).source().dynvec_length()->0 ==> {
                &&& res is None
                &&& final(self).position() == old(self).position()
            },
    {
        if self.index >= self.len {
            None
        } else {
            match self.cur.get(self.index) {
                Ok(item) => {
                    self.index = self.index + 1;
                    Some(item)
                },
                Err(_) => {
                    assert(false);
                    None
                },
            }
        }
    }
}

/// A borrowing walk over the items of a `ActionVec`, front to back.
#[derive(Clone, Debug)]
pub struct ActionVecIteratorRef<'a> {
    cur: &'a ActionVec,
    index: usize,
    len: usize,
}

impl<'a> ActionVecIteratorRef<'a> {
    /// The vector being walked.
    pub closed spec fn source(&self) -> CursorView {
        self.cur.cursor@
    }

    /// How many items have been handed out.
    pub closed spec fn position(&self) -> int {
        self.index as int
    }

    /// The walk is over a vector whose items can all be located, and has not run past its end.
    pub closed spec fn wf(&self) -> bool {
        &&& spec_action_vec_items_present(self.cur.cursor@)
        &&& self.cur.cursor@.dynvec_length() == Some(self.len as int)
        &&& self.index <= self.len
    }

    /// The next item, or `None` once every item has been handed out.
    pub fn next(&mut self) -> (res: Option<Action>)
        requires
            old(self).wf(),
        ensures
            final(self).wf(),
            final(self).source() == old(self).source(),
            old(self).position() < old(self).source().dynvec_length()->0 ==> {
                &&& res matches Some(item) && old(self).source().dynvec_item(old(self).position()) == Some(item.cursor@)
                &&& final(self).position() == old(self).position() + 1
            },
            old(self).position() >= old(self).source().dynvec_length()->0 ==> {
                &&& res is None
                &&& final(self).position() == old(self).position()
            },
    {
        if self.index >= self.len {
            None
        } else {
            match self.cur.get(self.index) {
                Ok(item) => {
                    self.index = self.index + 1;
                    Some(item)
                },
                Err(_) => {
                    assert(false);
                    None
                },
            }
        }
    }
}

impl ActionVec {
    /// A walk over the items, by reference.
    pub fn iter(&self) -> (res: ActionVecIteratorRef<'_>)
        requires
            spec_action_vec_items_present(self.cursor@),
        ensures
            res.wf(),
            res.source() == self.cursor@,
            res.position() == 0,
    {
        let len = match self.len() {
            Ok(len) => len,
            Err(_) => {
                assert(false);
                0
            },
        };
        ActionVecIteratorRef { cur: self, index: 0, len }
    }

    /// A walk over the items that takes the vector.
    pub fn into_iter(self) -> (res: ActionVecIterator)
        requires
            spec_action_vec_items_present(self.cursor@),
        ensures
            res.wf(),
            res.source() == self.cursor@,
            res.position() == 0,
    {
        let len = match self.len() {
            Ok(len) => len,
            Err(_) => {
                assert(false);
                0
            },
        };
        ActionVecIterator { cur: self, index: 0, len }
    }
}

/// Every item of the `LockSealVec` up to its length can be located.
pub open spec fn spec_lock_seal_vec_items_present(c: CursorView) -> bool {
    &&& c.dynvec_length() is Some
    &&& forall|i: int| 0 <= i < c.dynvec_length()->0 ==> (#[trigger] c.dynvec_item(i)) is Some
}

/// An owning walk over the items of a `LockSealVec`, front to back.
#[derive(Clone, Debug)]
pub struct LockSealVecIterator {
    cur: LockSealVec,
    index: usize,
    len: usize,
}

impl LockSealVecIterator {
    /// The vector being walked.
    pub closed spec fn source(&self) -> CursorView {
        self.cur.cursor@
    }

    /// How many items have been handed out.
    pub closed spec fn position(&self) -> int {
        self.index as int
    }

    /// The walk is over a vector whose items can all be located, and has not run past its end.
    pub closed spec fn wf(&self) -> bool {
        &&& spec_lock_seal_vec_items_present(self.cur.cursor@)
        &&& self.cur.cursor@.dynvec_length() == Some(self.len as int)
        &&& self.index <= self.len
    }

    /// The next item, or `None` once every item has been handed out.
    pub fn next(&mut self) -> (res: Option<LockSeal>)
        requires
            old(self).wf(),
        ensures
            final(self).wf(),
            final(self).source() == old(self).source(),
            old(self).position() < old(self).source().dynvec_length()->0 ==> {
                &&& res matches Some(item) && old(self).source().dynvec_item(old(self).position()) == Some(item.cursor@)
                &&& final(self).position() == old(self).position() + 1
            },
            old(self).position() >= old(self).source().dynvec_length()->0 ==> {
                &&& res is None
                &&& final(self).position() == old(self).position()
            },
    {
        if self.index >= self.len {
            None
        } else {
            match self.cur.get(self.index) {
                Ok(item) => {
                    self.index = self.index + 1;
                    Some(item)
                },
                Err(_) => {
                    assert(false);
                    None
                },
            }
        }
    }
}

/// A borrowing walk over the items of a `LockSealVec`, front to back.
#[derive(Clone, Debug)]
pub struct LockSealVecIteratorRef<'a> {
    cur: &'a LockSealVec,
    index: usize,
    len: usize,
}

impl<'a> LockSealVecIteratorRef<'a> {
    /// The vector being walked.
    pub closed spec fn source(&self) -> CursorView {
        self.cur.cursor@
    }

    /// How many items have been handed out.
    pub closed spec fn position(&self) -> int {
        self.index as int
    }

    /// The walk is over a vector whose items can all be located, and has not run past its end.
    pub closed spec fn wf(&self) -> bool {
        &&& spec_lock_seal_vec_items_present(self.cur.cursor@)
        &&& self.cur.cursor@.dynvec_length() == Some(self.len as int)
        &&& self.index <= self.len
    }

    /// The next item, or `None` once every item has been handed out.
    pub fn next(&mut self) -> (res: Option<LockSeal>)
        requires
            old(self).wf(),
        ensures
            final(self).wf(),
            final(self).source() == old(self).source(),
            old(self).position() < old(self).source().dynvec_length()->0 ==> {
                &&& res matches Some(item) && old(self).source().dynvec_item(old(self).position()) == Some(item.cursor@)
                &&& final(self).position() == old(self).position() + 1
            },
            old(self).position() >= old(self).source().dynvec_length()->0 ==> {
                &&& res is None
                &&& final(self).position() == old(self).position()
            },
    {
        if self.index >= self.len {
            None
        } else {
            match self.cur.get(self.index) {
                Ok(item) => {
                    self.index = self.index + 1;
                    Some(item)
                },
                Err(_) => {
                    assert(false);
                    None
                },
            }
        }
    }
}

impl LockSealVec {
    /// A walk over the items, by reference.
    pub fn iter(&self) -> (res: LockSealVecIteratorRef<'_>)
        requires
            spec_lock_seal_vec_items_present(self.cursor@),
        ensures
            res.wf(),
            res.source() == self.cursor@,
            res.position() == 0,
    {
        let len = match self.len() {
            Ok(len) => len,
            Err(_) => {
                assert(false);
                0
            },
        };
        LockSealVecIteratorRef { cur: self, index: 0, len }
    }

    /// A walk over the items that takes the vector.
    pub fn into_iter(self) -> (res: LockSealVecIterator)
        requires
            spec_lock_seal_vec_items_present(self.cursor@),
        ensures
            res.wf(),
            res.source() == self.cursor@,
            res.position() == 0,
    {
        let len = match self.len() {
            Ok(len) => len,
            Err(_) => {
                assert(false);
                0
            },
        };
        LockSealVecIterator { cur: self, index: 0, len }
    }
}

/// Every item of the `OtxAppendSegmentVec` up to its length can be located.
pub open spec fn spec_otx_append_segment_vec_items_present(c: CursorView) -> bool {
    &&& c.dynvec_length() is Some
    &&& forall|i: int| 0 <= i < c.dynvec_length()->0 ==> (#[trigger] c.dynvec_item(i)) is Some
}

/// An owning walk over the items of a `OtxAppendSegmentVec`, front to back.
#[derive(Clone, Debug)]
pub struct OtxAppendSegmentVecIterator {
    cur: OtxAppendSegmentVec,
    index: usize,
    len: usize,
}

impl OtxAppendSegmentVecIterator {
    /// The vector being walked.
    pub closed spec fn source(&self) -> CursorView {
        self.cur.cursor@
    }

    /// How many items have been handed out.
    pub closed spec fn position(&self) -> int {
        self.index as int
    }

    /// The walk is over a vector whose items can all be located, and has not run past its end.
    pub closed spec fn wf(&self) -> bool {
        &&& spec_otx_append_segment_vec_items_present(self.cur.cursor@)
        &&& self.cur.cursor@.dynvec_length() == Some(self.len as int)
        &&& self.index <= self.len
    }

    /// The next item, or `None` once every item has been handed out.
    pub fn next(&mut self) -> (res: Option<OtxAppendSegment>)
        requires
            old(self).wf(),
        ensures
            final(self).wf(),
            final(self).source() == old(self).source(),
            old(self).position() < old(self).source().dynvec_length()->0 ==> {
                &&& res matches Some(item) && old(self).source().dynvec_item(old(self).position()) == Some(item.cursor@)
                &&& final(self).position() == old(self).position() + 1
            },
            old(self).position() >= old(self).source().dynvec_length()->0 ==> {
                &&& res is None
                &&& final(self).position() == old(self).position()
            },
    {
        if self.index >= self.len {
            None
        } else {
            match self.cur.get(self.index) {
                Ok(item) => {
                    self.index = self.index + 1;
                    Some(item)
                },
                Err(_) => {
                    assert(false);
                    None
                },
            }
        }
    }
}

/// A borrowing walk over the items of a `OtxAppendSegmentVec`, front to back.
#[derive(Clone, Debug)]
pub struct OtxAppendSegmentVecIteratorRef<'a> {
    cur: &'a OtxAppendSegmentVec,
    index: usize,
    len: usize,
}

impl<'a> OtxAppendSegmentVecIteratorRef<'a> {
    /// The vector being walked.
    pub closed spec fn source(&self) -> CursorView {
        self.cur.cursor@
    }

    /// How many items have been handed out.
    pub closed spec fn position(&self) -> int {
        self.index as int
    }

    /// The walk is over a vector whose items can all be located, and has not run past its end.
    pub closed spec fn wf(&self) -> bool {
        &&& spec_otx_append_segment_vec_items_present(self.cur.cursor@)
        &&& self.cur.cursor@.dynvec_length() == Some(self.len as int)
        &&& self.index <= self.len
    }

    /// The next item, or `None` once every item has been handed out.
    pub fn next(&mut self) -> (res: Option<OtxAppendSegment>)
        requires
            old(self).wf(),
        ensures
            final(self).wf(),
            final(self).source() == old(self).source(),
            old(self).position() < old(self).source().dynvec_length()->0 ==> {
                &&& res matches Some(item) && old(self).source().dynvec_item(old(self).position()) == Some(item.cursor@)
                &&& final(self).position() == old(self).position() + 1
            },
            old(self).position() >= old(self).source().dynvec_length()->0 ==> {
                &&& res is None
                &&& final(self).position() == old(self).position()
            },
    {
        if self.index >= self.len {
            None
        } else {
            match self.cur.get(self.index) {
                Ok(item) => {
                    self.index = self.index + 1;
                    Some(item)
                },
                Err(_) => {
                    assert(false);
                    None
                },
            }
        }
    }
}

impl OtxAppendSegmentVec {
    /// A walk over the items, by reference.
    pub fn iter(&self) -> (res: OtxAppendSegmentVecIteratorRef<'_>)
        requires
            spec_otx_append_segment_vec_items_present(self.cursor@),
        ensures
            res.wf(),
            res.source() == self.cursor@,
            res.position() == 0,
    {
        let len = match self.len() {
            Ok(len) => len,
            Err(_) => {
                assert(false);
                0
            },
        };
        OtxAppendSegmentVecIteratorRef { cur: self, index: 0, len }
    }

    /// A walk over the items that takes the vector.
    pub fn into_iter(self) -> (res: OtxAppendSegmentVecIterator)
        requires
            spec_otx_append_segment_vec_items_present(self.cursor@),
        ensures
            res.wf(),
            res.source() == self.cursor@,
            res.position() == 0,
    {
        let len = match self.len() {
            Ok(len) => len,
            Err(_) => {
                assert(false);
                0
            },
        };
        OtxAppendSegmentVecIterator { cur: self, index: 0, len }
    }
}

} // verus!
