//! The Cobuild `WitnessLayout` union.

use vstd::prelude::*;

use super::cobuild::{
    spec_valid_otx, spec_valid_otx_start, spec_valid_sighash_all, spec_valid_sighash_all_only, Otx,
    OtxStart, SighashAll, SighashAllOnly,
};
use super::support::{Cursor, CursorView, Error};

verus! {

pub const WITNESS_LAYOUT_SIGHASH_ALL_ID: usize = 0xff00_0001;
pub const WITNESS_LAYOUT_SIGHASH_ALL_ONLY_ID: usize = 0xff00_0002;
pub const WITNESS_LAYOUT_OTX_ID: usize = 0xff00_0003;
pub const WITNESS_LAYOUT_OTX_START_ID: usize = 0xff00_0004;

/// The item id a witness union starts with, when it names one of the four layouts.
pub open spec fn spec_witness_item_id(c: CursorView) -> Option<int> {
    match c.number() {
        Some(id) => if 0xff00_0001 <= id <= 0xff00_0004 && c.offset + 4 <= usize::MAX {
            Some(id)
        } else {
            None
        },
        None => None,
    }
}

/// The item of a well-formed witness union (compatible mode off or on).
pub open spec fn spec_valid_witness_layout(c: CursorView, compatible: bool) -> bool {
    match spec_witness_item_id(c) {
        Some(id) => {
            let item = c.union_item();
            if id == 0xff00_0001 {
                spec_valid_sighash_all(item, compatible)
            } else if id == 0xff00_0002 {
                spec_valid_sighash_all_only(item, compatible)
            } else if id == 0xff00_0003 {
                spec_valid_otx(item, compatible)
            } else {
                spec_valid_otx_start(item, compatible)
            }
        },
        None => false,
    }
}

/// A Cobuild witness: one of the four layouts, tagged by its union item id.
#[derive(Clone, Debug)]
pub enum WitnessLayout {
    SighashAll(SighashAll),
    SighashAllOnly(SighashAllOnly),
    Otx(Otx),
    OtxStart(OtxStart),
}

impl WitnessLayout {
    /// The union item id of the layout.
    pub open spec fn spec_item_id(&self) -> int {
        match self {
            WitnessLayout::SighashAll(_) => 0xff00_0001,
            WitnessLayout::SighashAllOnly(_) => 0xff00_0002,
            WitnessLayout::Otx(_) => 0xff00_0003,
            WitnessLayout::OtxStart(_) => 0xff00_0004,
        }
    }

    /// The window of the item the union tags.
    pub open spec fn spec_item(&self) -> CursorView {
        match self {
            WitnessLayout::SighashAll(v) => v.cursor@,
            WitnessLayout::SighashAllOnly(v) => v.cursor@,
            WitnessLayout::Otx(v) => v.cursor@,
            WitnessLayout::OtxStart(v) => v.cursor@,
        }
    }

    /// Reads the union item id and tags the rest of the window with it.
    pub fn from_cursor(cursor: Cursor) -> (res: Result<WitnessLayout, Error>)
        ensures
            res is Ok <==> spec_witness_item_id(cursor@) is Some,
            res matches Ok(w) ==> Some(w.spec_item_id()) == spec_witness_item_id(cursor@)
                && w.spec_item() == cursor@.union_item(),
    {
        let (item_id, item) = cursor.union_unpack()?;
        if item_id == WITNESS_LAYOUT_SIGHASH_ALL_ID {
            Ok(WitnessLayout::SighashAll(SighashAll::from_cursor(item)))
        } else if item_id == WITNESS_LAYOUT_SIGHASH_ALL_ONLY_ID {
            Ok(WitnessLayout::SighashAllOnly(SighashAllOnly::from_cursor(item)))
        } else if item_id == WITNESS_LAYOUT_OTX_ID {
            Ok(WitnessLayout::Otx(Otx::from_cursor(item)))
        } else if item_id == WITNESS_LAYOUT_OTX_START_ID {
            Ok(WitnessLayout::OtxStart(OtxStart::from_cursor(item)))
        } else {
            Err(Error::UnknownItem)
        }
    }

    /// The item is well formed.
    pub fn verify(&self, compatible: bool) -> (res: Result<(), Error>)
        ensures
            res is Ok <==> match self {
                WitnessLayout::SighashAll(v) => spec_valid_sighash_all(v.cursor@, compatible),
                WitnessLayout::SighashAllOnly(v) => spec_valid_sighash_all_only(v.cursor@, compatible),
                WitnessLayout::Otx(v) => spec_valid_otx(v.cursor@, compatible),
                WitnessLayout::OtxStart(v) => spec_valid_otx_start(v.cursor@, compatible),
            },
    {
        match self {
            WitnessLayout::SighashAll(v) => v.verify(compatible),
            WitnessLayout::SighashAllOnly(v) => v.verify(compatible),
            WitnessLayout::Otx(v) => v.verify(compatible),
            WitnessLayout::OtxStart(v) => v.verify(compatible),
        }
    }
}

} // verus!
