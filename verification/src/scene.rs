//! Anchors for the client's scene stack. The stack itself (menus, UI
//! panels, rendering) lives outside this core; these types are the data it
//! threads through every scene.

use vstd::prelude::*;

verus! {

/// State shared by every scene on the client's scene stack.
#[derive(Clone, Copy, PartialEq, Eq, Structural, Debug)]
pub struct SharedState {}

impl SharedState {
    pub fn new() -> (s: SharedState)
        ensures
            s == (SharedState {  }),
    {
        SharedState {  }
    }
}

/// A minimal scene with no state of its own; the stack's placeholder
/// bottom entry.
#[derive(Clone, Copy, PartialEq, Eq, Structural, Debug)]
pub struct TestState {}

impl TestState {
    pub fn new() -> (s: TestState)
        ensures
            s == (TestState {  }),
    {
        TestState {  }
    }
}

} // verus!
