//! Workspaces.

use vstd::prelude::*;

verus! {

/// A workspace. It carries no state of its own yet.
#[derive(Clone, Copy, Debug, PartialEq, Eq, Hash, Structural)]
pub struct Workspace {}

} // verus!
