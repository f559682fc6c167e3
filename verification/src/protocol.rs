use vstd::prelude::*;
use core::convert::TryFrom;

use crate::error::CoreError;

verus! {

/// The role of the script an action targets.
#[derive(Clone, Copy, Debug, PartialEq, Eq, Structural)]
pub enum ScriptRole {
    InputLock,
    InputType,
    OutputType,
}

/// The role encoded by a raw byte, if the byte names one.
pub open spec fn spec_script_role(value: u8) -> Option<ScriptRole> {
    if value == 0 {
        Some(ScriptRole::InputLock)
    } else if value == 1 {
        Some(ScriptRole::InputType)
    } else if value == 2 {
        Some(ScriptRole::OutputType)
    } else {
        None
    }
}

/// The raw byte of a role.
pub open spec fn spec_script_role_raw(role: ScriptRole) -> u8 {
    match role {
        ScriptRole::InputLock => 0,
        ScriptRole::InputType => 1,
        ScriptRole::OutputType => 2,
    }
}

impl TryFrom<u8> for ScriptRole {
    type Error = CoreError;

    fn try_from(value: u8) -> (res: Result<Self, Self::Error>)
        ensures
            res == (match spec_script_role(value) {
                Some(role) => Ok::<ScriptRole, CoreError>(role),
                None => Err(CoreError::InvalidMessageTarget),
            }),
    {
        if value == 0 {
            Ok(ScriptRole::InputLock)
        } else if value == 1 {
            Ok(ScriptRole::InputType)
        } else if value == 2 {
            Ok(ScriptRole::OutputType)
        } else {
            Err(CoreError::InvalidMessageTarget)
        }
    }
}

impl vstd::std_specs::convert::TryFromSpecImpl<u8> for ScriptRole {
    open spec fn obeys_try_from_spec() -> bool {
        true
    }

    open spec fn try_from_spec(value: u8) -> Result<Self, Self::Error> {
        match spec_script_role(value) {
            Some(role) => Ok(role),
            None => Err(CoreError::InvalidMessageTarget),
        }
    }
}

pub const APPEND_PERMISSION_INPUTS_BIT: u8 = 0;
pub const APPEND_PERMISSION_OUTPUTS_BIT: u8 = 1;
pub const APPEND_PERMISSION_CELL_DEPS_BIT: u8 = 2;
pub const APPEND_PERMISSION_HEADER_DEPS_BIT: u8 = 3;
pub const APPEND_PERMISSION_ALLOWED_MASK: u8 = 0x0f;

/// Whether bit number `bit` (counted from the least significant) is set in `raw`.
pub open spec fn spec_bit_set(raw: u8, bit: u8) -> bool {
    bit < 8 && (raw >> bit) & 1u8 == 1u8
}

/// Which entity kinds an OTX lets later segments append.
#[derive(Clone, Copy, Debug, PartialEq, Eq, Structural)]
pub struct AppendPermissions {
    raw: u8,
}

impl AppendPermissions {
    /// The raw permission byte.
    pub closed spec fn spec_raw(self) -> u8 {
        self.raw
    }

    /// Whether the permission bit `bit` is set; bits past the byte are never set.
    pub fn allows(self, bit: u8) -> (res: bool)
        ensures
            res == spec_bit_set(self.spec_raw(), bit),
    {
        if bit >= 8 {
            return false;
        }
        let raw = self.raw;
        let mask: u8 = 1u8 << bit;
        let res = raw & mask != 0;
        assert(res == ((raw >> bit) & 1u8 == 1u8)) by (bit_vector)
            requires
                bit < 8,
                mask == 1u8 << bit,
                res == (raw & mask != 0),
        ;
        res
    }

    /// Appending `count` entities of the kind `bit` is allowed.
    pub fn require_allowed(self, bit: u8, count: usize) -> (res: Result<(), CoreError>)
        ensures
            res == (if count > 0 && !spec_bit_set(self.spec_raw(), bit) {
                Err::<(), CoreError>(CoreError::InvalidOtxLayout)
            } else {
                Ok(())
            }),
    {
        if count > 0 && !self.allows(bit) {
            Err(CoreError::InvalidOtxLayout)
        } else {
            Ok(())
        }
    }
}

impl TryFrom<u8> for AppendPermissions {
    type Error = CoreError;

    fn try_from(raw: u8) -> (res: Result<Self, Self::Error>)
        ensures
            res is Ok <==> raw & !APPEND_PERMISSION_ALLOWED_MASK == 0,
            res matches Ok(p) ==> p.spec_raw() == raw,
            res matches Err(e) ==> e == CoreError::InvalidOtxLayout,
    {
        if raw & !APPEND_PERMISSION_ALLOWED_MASK != 0 {
            return Err(CoreError::InvalidOtxLayout);
        }
        Ok(AppendPermissions { raw })
    }
}

impl vstd::std_specs::convert::TryFromSpecImpl<u8> for AppendPermissions {
    open spec fn obeys_try_from_spec() -> bool {
        true
    }

    closed spec fn try_from_spec(raw: u8) -> Result<Self, Self::Error> {
        if raw & !APPEND_PERMISSION_ALLOWED_MASK != 0 {
            Err(CoreError::InvalidOtxLayout)
        } else {
            Ok(AppendPermissions { raw })
        }
    }
}

pub const SEGMENT_FLAG_ALLOW_MORE_AFTER: u8 = 0x01;
pub const SEGMENT_FLAG_COVERAGE_PREVIOUS: u8 = 0x02;
pub const SEGMENT_FLAG_ALLOWED_MASK: u8 = 0x03;

/// Flags of one OTX append segment.
#[derive(Clone, Copy, Debug, PartialEq, Eq, Structural)]
pub struct SegmentFlags {
    raw: u8,
}

impl SegmentFlags {
    /// The raw flag byte.
    pub closed spec fn spec_raw(self) -> u8 {
        self.raw
    }

    pub fn raw(self) -> (res: u8)
        ensures
            res == self.spec_raw(),
    {
        self.raw
    }

    pub fn allow_more_segments_after(self) -> (res: bool)
        ensures
            res == spec_bit_set(self.spec_raw(), 0),
    {
        let raw = self.raw;
        let res = raw & SEGMENT_FLAG_ALLOW_MORE_AFTER != 0;
        assert(res == ((raw >> 0u8) & 1u8 == 1u8)) by (bit_vector)
            requires
                res == (raw & 1u8 != 0),
        ;
        res
    }

    pub fn coverage_previous_segments(self) -> (res: bool)
        ensures
            res == spec_bit_set(self.spec_raw(), 1),
    {
        let raw = self.raw;
        let res = raw & SEGMENT_FLAG_COVERAGE_PREVIOUS != 0;
        assert(res == ((raw >> 1u8) & 1u8 == 1u8)) by (bit_vector)
            requires
                res == (raw & 2u8 != 0),
        ;
        res
    }
}

impl TryFrom<u8> for SegmentFlags {
    type Error = CoreError;

    fn try_from(raw: u8) -> (res: Result<Self, Self::Error>)
        ensures
            res is Ok <==> raw & !SEGMENT_FLAG_ALLOWED_MASK == 0,
            res matches Ok(f) ==> f.spec_raw() == raw,
            res matches Err(e) ==> e == CoreError::InvalidOtxLayout,
    {
        if raw & !SEGMENT_FLAG_ALLOWED_MASK != 0 {
            return Err(CoreError::InvalidOtxLayout);
        }
        Ok(SegmentFlags { raw })
    }
}

impl vstd::std_specs::convert::TryFromSpecImpl<u8> for SegmentFlags {
    open spec fn obeys_try_from_spec() -> bool {
        true
    }

    closed spec fn try_from_spec(raw: u8) -> Result<Self, Self::Error> {
        if raw & !SEGMENT_FLAG_ALLOWED_MASK != 0 {
            Err(CoreError::InvalidOtxLayout)
        } else {
            Ok(SegmentFlags { raw })
        }
    }
}

} // verus!
