//! The functions that the user of the library gives it.
use vstd::prelude::*;

verus! {

/// Names a function of the user that the host keeps and calls.
#[derive(Clone, Copy, PartialEq, Eq, Structural, Debug)]
pub struct HookId(pub u64);

} // verus!
