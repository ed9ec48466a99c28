//! The bits by which a virtual node tells the runtime what may change in it.
use vstd::prelude::*;

verus! {

pub const TEXT: i16 = 1;
pub const CLASS: i16 = 2;
pub const STYLE: i16 = 4;
pub const PROPS: i16 = 8;
pub const FULL_PROPS: i16 = 16;
pub const HYDRATE_EVENTS: i16 = 32;
pub const STABLE_FRAGMENT: i16 = 64;
pub const KEYED_FRAGMENT: i16 = 128;
pub const UNKEYED_FRAGMENT: i16 = 256;
pub const NEED_PATCH: i16 = 512;
pub const DYNAMIC_SLOTS: i16 = 1024;
pub const HOISTED: i16 = -1;
pub const BAIL: i16 = -2;

/// A set of patch flags, as the sum of their bits.
#[derive(PartialEq, Eq, Structural, Clone, Copy, Debug)]
pub struct PatchFlags {
    pub bits: i16,
}

impl PatchFlags {
    pub fn empty() -> (r: PatchFlags)
        ensures
            r.bits == 0,
    {
        PatchFlags { bits: 0 }
    }

    pub fn bits(&self) -> (r: i16)
        ensures
            r == self.bits,
    {
        self.bits
    }

    pub fn is_empty(&self) -> (r: bool)
        ensures
            r == (self.bits == 0),
    {
        self.bits == 0
    }
}

/// Slot stability of a component's children.
#[derive(PartialEq, Eq, Structural, Clone, Copy, Debug)]
pub enum SlotFlag {
    /// The slots only read what this file binds.
    Stable,
    /// The slots read something that is resolved at run time.
    Dynamic,
}

impl SlotFlag {
    pub open spec fn code(self) -> i64 {
        match self {
            SlotFlag::Stable => 1,
            SlotFlag::Dynamic => 2,
        }
    }

    /// The number the runtime knows the flag by.
    pub fn value(&self) -> (r: i64)
        ensures
            r == self.code(),
    {
        match self {
            SlotFlag::Stable => 1,
            SlotFlag::Dynamic => 2,
        }
    }
}

} // verus!
