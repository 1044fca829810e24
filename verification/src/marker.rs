//! Marker component attached to replicated entities so that peers can
//! recognise them; it carries no state of its own.

use vstd::prelude::*;

verus! {

/// Replication marker: its presence on an entity is the whole message.
#[derive(Clone, Copy, PartialEq, Eq, Structural, Debug)]
pub struct Marker {}

impl Marker {
    pub fn new() -> (m: Marker)
        ensures
            m == (Marker {  }),
    {
        Marker {  }
    }
}

impl Default for Marker {
    fn default() -> (m: Marker)
        ensures
            m == (Marker {  }),
    {
        Marker::new()
    }
}

} // verus!
