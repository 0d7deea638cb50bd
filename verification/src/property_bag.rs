//! The bag of attributes handed to a node for validation: attribute names
//! paired with their raw values, in document order.

use vstd::prelude::*;

use crate::attributes::Attribute;

verus! {

/// The attributes of one element, in the order they are processed.
#[derive(Debug)]
pub struct PropertyBag {
    pub atts: Vec<(Attribute, String)>,
}

impl PropertyBag {
    /// An empty bag.
    pub fn new() -> (r: PropertyBag)
        ensures
            r.atts@.len() == 0,
    {
        PropertyBag { atts: Vec::new() }
    }

    /// Appends one attribute with its raw value.
    pub fn push(&mut self, attr: Attribute, value: String)
        ensures
            final(self).atts@ == old(self).atts@.push((attr, value)),
    {
        self.atts.push((attr, value));
    }
}

} // verus!
