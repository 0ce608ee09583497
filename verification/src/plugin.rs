//! Names for the two things that a host sets up to run the sweep.

use vstd::prelude::*;

verus! {

/// Stands for the wiring of a manager into a host: the manager is set up at
/// the start, and the sweep runs in [`DespawnStage`].
#[derive(Clone, Copy, Debug, Default, PartialEq, Eq, Hash)]
pub struct RefCompPlugin;

/// Names the point of a tick at which the sweep runs: once, after the work
/// that may make and drop handles in that tick.
#[derive(Clone, Copy, Debug, Default, PartialEq, Eq, Hash)]
pub struct DespawnStage;

} // verus!
