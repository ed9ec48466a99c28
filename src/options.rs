//! The transform's configuration.
use vstd::prelude::*;

verus! {

pub struct Options {
    /// Route `on` / `nativeOn` attribute values through the event-transform helper.
    pub transform_on: bool,
    /// Emit patch flags, slot flags and dynamic-prop lists.
    pub optimize: bool,
    /// Patterns of tag names that are custom elements, emitted as strings.
    pub custom_element_patterns: Vec<String>,
    /// Merge several prop sources into one `mergeProps` call.
    pub merge_props: bool,
    /// Guard an ambiguous single child with the `isSlot` helper.
    pub enable_object_slots: bool,
    /// The name of the node-creation function, in place of `createVNode`.
    pub pragma: Option<String>,
    /// Infer runtime prop declarations from the types of component setup functions.
    pub resolve_type: bool,
}

/// The value of a switch that is on unless configured otherwise.
pub fn default_true() -> (r: bool)
    ensures
        r,
{
    true
}

impl Default for Options {
    fn default() -> (r: Options)
        ensures
            !r.transform_on,
            !r.optimize,
            r.custom_element_patterns@.len() == 0,
            r.merge_props,
            r.enable_object_slots,
            r.pragma is None,
            !r.resolve_type,
    {
        Options {
            transform_on: false,
            optimize: false,
            custom_element_patterns: Vec::new(),
            merge_props: default_true(),
            enable_object_slots: default_true(),
            pragma: None,
            resolve_type: false,
        }
    }
}

} // verus!
