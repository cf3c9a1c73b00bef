use vstd::prelude::*;

use crate::military::MilitaryCreationTypes;
use crate::resource::ResourceMap;
use crate::tickable::{TickResult, Tickable};

verus! {

/// A building of one of the two kinds.
pub enum Building {
    MilitaryBuilding(MilitaryBuilding),
    ResourceBuilding(ResourceBuilding),
}

/// What every building has: its name, what it costs to build, and its level.
#[derive(Clone)]
pub struct BuildingData {
    pub name: String,
    pub resource_cost: ResourceMap,
    pub level: u32,
}

/// A building that charges over several ticks, paying an upkeep each tick,
/// and then produces one unit.
#[derive(Clone)]
pub struct MilitaryBuilding {
    pub building: BuildingData,
    pub create_type: MilitaryCreationTypes,
    pub military_cost_per_tick: ResourceMap,
    pub progress_required_to_create_military: u32,
    pub current_progress: u32,
    pub progress_increase_per_tick: u32,
}

/// A building that yields the same resource delta every tick.
#[derive(Clone)]
pub struct ResourceBuilding {
    pub building: BuildingData,
    pub create_type: ResourceMap,
}

impl MilitaryBuilding {
    /// A military building at level 1 with no progress yet.
    pub fn new(
        name: String,
        resource_cost: ResourceMap,
        create_type: MilitaryCreationTypes,
        military_cost_per_tick: ResourceMap,
        progress_required_to_create_military: u32,
        progress_increase_per_tick: u32,
    ) -> (r: Self)
        ensures
            r.building == (BuildingData { name, resource_cost, level: 1 }),
            r.create_type == create_type,
            r.military_cost_per_tick == military_cost_per_tick,
            r.progress_required_to_create_military == progress_required_to_create_military,
            r.current_progress == 0,
            r.progress_increase_per_tick == progress_increase_per_tick,
    {
        MilitaryBuilding {
            create_type,
            building: BuildingData { name, resource_cost, level: 1 },
            military_cost_per_tick,
            progress_required_to_create_military,
            current_progress: 0,
            progress_increase_per_tick,
        }
    }

    /// Whether the next tick completes a unit.
    pub fn completes_next(&self) -> (r: bool)
        ensures
            r == self.completes(),
    {
        let required = self.progress_required_to_create_military;
        self.current_progress >= required || self.progress_increase_per_tick >= required
            - self.current_progress
    }

    /// The progress after this tick's increment, before any reset.
    pub open spec fn charged(self) -> int {
        self.current_progress + self.progress_increase_per_tick
    }

    /// This tick completes a unit.
    pub open spec fn completes(self) -> bool {
        self.charged() >= self.progress_required_to_create_military
    }

    /// This building after one tick: progress reset on completion, charged
    /// otherwise.
    pub open spec fn after_tick(self) -> MilitaryBuilding {
        if self.completes() {
            MilitaryBuilding { current_progress: 0, ..self }
        } else {
            MilitaryBuilding { current_progress: self.charged() as u32, ..self }
        }
    }

    /// What one tick hands back: the unit on completion, the per-tick cost
    /// otherwise, never both.
    pub open spec fn tick_outcome(self) -> TickResult {
        if self.completes() {
            TickResult::MilitaryBuildResult(self.create_type)
        } else {
            TickResult::ResourceResult(self.military_cost_per_tick)
        }
    }
}

impl Tickable for MilitaryBuilding {
    open spec fn tick_ready(&self) -> bool {
        true
    }

    open spec fn ticks_to(&self, next: Self, r: TickResult) -> bool {
        next == self.after_tick() && r == self.tick_outcome()
    }

    /// Charges by `progress_increase_per_tick`; once the progress reaches
    /// `progress_required_to_create_military` it resets to zero and the unit
    /// is handed back, otherwise the per-tick cost is.
    fn tick(&mut self) -> (r: TickResult) {
        if self.completes_next() {
            self.current_progress = 0;
            TickResult::MilitaryBuildResult(self.create_type.duplicate())
        } else {
            self.current_progress = self.current_progress + self.progress_increase_per_tick;
            TickResult::ResourceResult(self.military_cost_per_tick)
        }
    }
}

impl Tickable for ResourceBuilding {
    open spec fn tick_ready(&self) -> bool {
        true
    }

    open spec fn ticks_to(&self, next: Self, r: TickResult) -> bool {
        next == *self && r == TickResult::ResourceResult(self.create_type)
    }

    /// Hands back the production delta, unchanged.
    fn tick(&mut self) -> (r: TickResult) {
        TickResult::ResourceResult(self.create_type)
    }
}

impl Building {
    /// The shared descriptor of either kind.
    pub open spec fn data(self) -> BuildingData {
        match self {
            Building::MilitaryBuilding(mil) => mil.building,
            Building::ResourceBuilding(res) => res.building,
        }
    }

    /// The name, cost and level of this building.
    pub fn get_building_data(&self) -> (r: &BuildingData)
        ensures
            *r == self.data(),
    {
        match self {
            Building::MilitaryBuilding(mil) => &mil.building,
            Building::ResourceBuilding(res) => &res.building,
        }
    }

    /// This building after one tick; only a military building changes.
    pub open spec fn after_tick(self) -> Building {
        match self {
            Building::MilitaryBuilding(mil) => Building::MilitaryBuilding(mil.after_tick()),
            Building::ResourceBuilding(res) => Building::ResourceBuilding(res),
        }
    }

    /// What one tick of this building hands back.
    pub open spec fn tick_outcome(self) -> TickResult {
        match self {
            Building::MilitaryBuilding(mil) => mil.tick_outcome(),
            Building::ResourceBuilding(res) => TickResult::ResourceResult(res.create_type),
        }
    }
}

impl Building {
    /// The resource delta that the next tick hands back, or `None` where
    /// it completes a unit instead.
    pub fn upcoming_delta(&self) -> (r: Option<ResourceMap>)
        ensures
            r is Some <==> self.tick_outcome() is ResourceResult,
            r is Some ==> self.tick_outcome() == TickResult::ResourceResult(r.unwrap()),
    {
        match self {
            Building::MilitaryBuilding(mil) => {
                if mil.completes_next() {
                    None
                } else {
                    Some(mil.military_cost_per_tick)
                }
            },
            Building::ResourceBuilding(res) => Some(res.create_type),
        }
    }
}

impl Tickable for Building {
    open spec fn tick_ready(&self) -> bool {
        true
    }

    open spec fn ticks_to(&self, next: Self, r: TickResult) -> bool {
        next == self.after_tick() && r == self.tick_outcome()
    }

    fn tick(&mut self) -> (r: TickResult) {
        match self {
            Building::MilitaryBuilding(mil) => mil.tick(),
            Building::ResourceBuilding(res) => res.tick(),
        }
    }
}

} // verus!
