//! Patch flags: change-detection hints attached to generated nodes.
//!
//! The values are part of the contract with the runtime and must not change.

use vstd::prelude::*;

verus! {

/// The element has dynamic text content.
pub const TEXT: u16 = 1;

/// The element has a dynamic `class` binding.
pub const CLASS: u16 = 2;

/// The element has a dynamic `style` binding.
pub const STYLE: u16 = 4;

/// The element has dynamic props other than `class` and `style`.
pub const PROPS: u16 = 8;

/// The element has props with dynamic keys; excludes `CLASS`, `STYLE`, `PROPS`.
pub const FULL_PROPS: u16 = 16;

/// The element needs props hydration.
pub const NEED_HYDRATION: u16 = 32;

/// A fragment whose children never change order.
pub const STABLE_FRAGMENT: u16 = 64;

/// A fragment whose children carry keys.
pub const KEYED_FRAGMENT: u16 = 128;

/// A fragment whose children carry no keys.
pub const UNKEYED_FRAGMENT: u16 = 256;

/// The element needs a non-props patch.
pub const NEED_PATCH: u16 = 512;

/// The component has dynamic slots.
pub const DYNAMIC_SLOTS: u16 = 1024;

/// Whether `bit` is set in `flags`.
pub open spec fn has_flag(flags: u16, bit: u16) -> bool {
    flags & bit != 0
}

/// The hints recorded on an element: its flags and the names of its dynamic
/// props.
#[derive(Debug, Default)]
pub struct PatchHints {
    pub flags: u16,
    pub props: Vec<String>,
}

/// Exactly one of the three fragment flags is set.
pub open spec fn one_fragment_flag(flags: u16) -> bool {
    (has_flag(flags, STABLE_FRAGMENT) && !has_flag(flags, KEYED_FRAGMENT) && !has_flag(flags, UNKEYED_FRAGMENT))
    || (!has_flag(flags, STABLE_FRAGMENT) && has_flag(flags, KEYED_FRAGMENT) && !has_flag(flags, UNKEYED_FRAGMENT))
    || (!has_flag(flags, STABLE_FRAGMENT) && !has_flag(flags, KEYED_FRAGMENT) && has_flag(flags, UNKEYED_FRAGMENT))
}

/// Full props exclude the individual class, style and props flags and the
/// dynamic prop names.
pub open spec fn full_props_exclusive(h: PatchHints) -> bool {
    has_flag(h.flags, FULL_PROPS) ==> {
        &&& !has_flag(h.flags, CLASS)
        &&& !has_flag(h.flags, STYLE)
        &&& !has_flag(h.flags, PROPS)
        &&& h.props@.len() == 0
    }
}

} // verus!
