use vstd::prelude::*;

use crate::planet::Planet;
use crate::tickable::{TickResult, Tickable};

verus! {

/// All planets of a run, ticked together.
pub struct GameWorld {
    pub planets: Vec<Planet>,
}

impl GameWorld {
    /// A world of `planets`, kept in the given order.
    pub fn new(planets: Vec<Planet>) -> (r: Self)
        ensures
            r.planets@ == planets@,
    {
        GameWorld { planets }
    }
}

impl Tickable for GameWorld {
    open spec fn tick_ready(&self) -> bool {
        forall|i: int| 0 <= i < self.planets@.len() ==> (#[trigger] self.planets@[i]).tick_ready()
    }

    open spec fn ticks_to(&self, next: Self, r: TickResult) -> bool {
        &&& r == TickResult::Idle
        &&& next.planets@.len() == self.planets@.len()
        &&& forall|i: int|
            0 <= i < self.planets@.len() ==> (#[trigger] self.planets@[i]).ticks_to(
                next.planets@[i],
                TickResult::Idle,
            )
    }

    /// Hands each planet, in order, one tick request; each is resolved in
    /// full before the next planet's.
    fn tick(&mut self) -> (r: TickResult) {
        let ghost start = *self;
        let n = self.planets.len();
        let mut i: usize = 0;
        while i < n
            invariant
                0 <= i <= n,
                n == start.planets@.len(),
                start.tick_ready(),
                self.planets@.len() == n,
                forall|j: int|
                    0 <= j < i ==> (#[trigger] start.planets@[j]).ticks_to(
                        self.planets@[j],
                        TickResult::Idle,
                    ),
                forall|j: int| i <= j < n ==> self.planets@[j] == start.planets@[j],
            decreases n - i,
        {
            assert(start.planets@[i as int].tick_ready());
            self.planets[i].tick();
            i += 1;
        }
        TickResult::Idle
    }
}

/// Planet `a` and planet `b` are in the same state, as far as any rule can
/// tell.
pub open spec fn same_state(a: Planet, b: Planet) -> bool {
    &&& a.name == b.name
    &&& a.position == b.position
    &&& a.buildings@ == b.buildings@
    &&& a.resources@ == b.resources@
    &&& a.military@ == b.military@
    &&& a.military.wf() == b.military.wf()
}

/// One tick takes planets in the same state to planets in the same state.
pub proof fn lemma_tick_deterministic(a: Planet, b: Planet, a2: Planet, b2: Planet)
    requires
        same_state(a, b),
        a.ticks_to(a2, TickResult::Idle),
        b.ticks_to(b2, TickResult::Idle),
    ensures
        same_state(a2, b2),
{
}

/// Planets are independent: over any number of world ticks, planet `i` of
/// the world goes through the same states as the same planet ticked alone.
pub proof fn lemma_world_ticks_planetwise(worlds: Seq<GameWorld>, alone: Seq<Planet>, i: int)
    requires
        worlds.len() >= 1,
        alone.len() == worlds.len(),
        forall|j: int|
            0 <= j < worlds.len() - 1 ==> (#[trigger] worlds[j]).ticks_to(
                worlds[j + 1],
                TickResult::Idle,
            ),
        forall|j: int|
            0 <= j < alone.len() - 1 ==> (#[trigger] alone[j]).ticks_to(
                alone[j + 1],
                TickResult::Idle,
            ),
        0 <= i < worlds[0].planets@.len(),
        alone[0] == worlds[0].planets@[i],
    ensures
        forall|j: int|
            0 <= j < worlds.len() ==> i < (#[trigger] worlds[j]).planets@.len() && same_state(
                worlds[j].planets@[i],
                alone[j],
            ),
    decreases worlds.len(),
{
    if worlds.len() > 1 {
        let last = worlds.len() - 1;
        lemma_world_ticks_planetwise(worlds.drop_last(), alone.drop_last(), i);
        assert(worlds.drop_last()[last - 1] == worlds[last - 1]);
        assert(alone.drop_last()[last - 1] == alone[last - 1]);
        assert(worlds[last - 1].ticks_to(worlds[last], TickResult::Idle));
        lemma_tick_deterministic(
            worlds[last - 1].planets@[i],
            alone[last - 1],
            worlds[last].planets@[i],
            alone[last],
        );
        assert forall|j: int| 0 <= j < worlds.len() implies i < (
        #[trigger] worlds[j]).planets@.len() && same_state(worlds[j].planets@[i], alone[j]) by {
            if j < last {
                assert(worlds.drop_last()[j] == worlds[j]);
                assert(alone.drop_last()[j] == alone[j]);
            }
        }
    }
}

} // verus!
