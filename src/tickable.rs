use vstd::prelude::*;

use crate::military::MilitaryCreationTypes;
use crate::resource::ResourceMap;

verus! {

/// What one tick hands back: a resource delta to credit, a completed unit,
/// or nothing.
#[derive(Debug, Clone)]
pub enum TickResult {
    ResourceResult(ResourceMap),
    MilitaryBuildResult(MilitaryCreationTypes),
    Idle,
}

/// Something that advances one step per tick.
pub trait Tickable: Sized {
    /// This state can take a tick.
    spec fn tick_ready(&self) -> bool;

    /// One tick takes this state to `next` and hands back `r`.
    spec fn ticks_to(&self, next: Self, r: TickResult) -> bool;

    fn tick(&mut self) -> (r: TickResult)
        requires
            old(self).tick_ready(),
        ensures
            old(self).ticks_to(*final(self), r),
    ;
}

} // verus!
