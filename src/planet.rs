use vstd::prelude::*;

use crate::buildings::Building;
use crate::military::{Fleet, FleetRegistry, MilitaryCreationTypes};
use crate::resource::{
    affordable, can_credit, credited, debit_in_range, entry_of, negated, tracks_all, Resource,
    ResourceError, ResourceMap, ResourceType,
};
use crate::tickable::{TickResult, Tickable};

verus! {

/// Where a planet lies. Carried along; no rule reads it.
#[derive(Debug, Clone, Copy)]
pub struct Position {
    pub x: u32,
    pub y: u32,
}

/// A planet: its resource ledger, its buildings in the order they were
/// built, and its fleets.
pub struct Planet {
    pub name: String,
    pub buildings: Vec<Building>,
    pub military: FleetRegistry,
    pub resources: ResourceMap,
    pub position: Position,
}

/// The name of the default fleet of the planet called `planet`.
pub open spec fn fleet_name(planet: Seq<char>) -> Seq<char> {
    planet + seq![' ', 'f', 'l', 'e', 'e', 't']
}

/// The name of the default fleet of the planet called `name`.
fn default_fleet_name(name: &String) -> (r: String)
    ensures
        r@ == fleet_name(name@),
{
    let r = name.clone().concat(" fleet");
    proof {
        reveal_strlit(" fleet");
        assert(r@ =~= fleet_name(name@));
    }
    r
}

/// A ledger that tracks every kind, each at zero.
pub open spec fn zero_ledger() -> Map<ResourceType, int> {
    Map::new(|k: ResourceType| true, |k: ResourceType| 0int)
}

/// What each building hands back on one tick, in order.
pub open spec fn outcomes(buildings: Seq<Building>) -> Seq<TickResult> {
    buildings.map_values(|b: Building| b.tick_outcome())
}

/// Each building after one tick.
pub open spec fn ticked_buildings(buildings: Seq<Building>) -> Seq<Building> {
    buildings.map_values(|b: Building| b.after_tick())
}

/// `ledger` with the resource deltas among `outs` credited in order.
pub open spec fn fold_ledger(ledger: Map<ResourceType, int>, outs: Seq<TickResult>) -> Map<
    ResourceType,
    int,
>
    decreases outs.len(),
{
    if outs.len() == 0 {
        ledger
    } else {
        let before = fold_ledger(ledger, outs.drop_last());
        match outs.last() {
            TickResult::ResourceResult(delta) => credited(before, delta@),
            _ => before,
        }
    }
}

/// Each credit of `fold_ledger(ledger, outs)` is allowed where it happens.
pub open spec fn fold_in_range(ledger: Map<ResourceType, int>, outs: Seq<TickResult>) -> bool
    decreases outs.len(),
{
    if outs.len() == 0 {
        true
    } else {
        &&& fold_in_range(ledger, outs.drop_last())
        &&& match outs.last() {
            TickResult::ResourceResult(delta) => can_credit(
                fold_ledger(ledger, outs.drop_last()),
                delta@,
            ),
            _ => true,
        }
    }
}

/// The units among `outs`, in order.
pub open spec fn units_of(outs: Seq<TickResult>) -> Seq<MilitaryCreationTypes>
    decreases outs.len(),
{
    if outs.len() == 0 {
        Seq::empty()
    } else {
        let before = units_of(outs.drop_last());
        match outs.last() {
            TickResult::MilitaryBuildResult(unit) => before.push(unit),
            _ => before,
        }
    }
}

/// `fleets` with `units` appended to the fleet called `name`.
pub open spec fn with_units(
    fleets: Map<Seq<char>, Seq<MilitaryCreationTypes>>,
    name: Seq<char>,
    units: Seq<MilitaryCreationTypes>,
) -> Map<Seq<char>, Seq<MilitaryCreationTypes>> {
    if units.len() == 0 {
        fleets
    } else {
        fleets.insert(name, fleets[name] + units)
    }
}

/// A fold that stays in range does so on each of its prefixes, and a prefix
/// yields no more units than the whole.
proof fn lemma_fold_prefix(ledger: Map<ResourceType, int>, outs: Seq<TickResult>, k: int)
    requires
        fold_in_range(ledger, outs),
        0 <= k <= outs.len(),
    ensures
        fold_in_range(ledger, outs.take(k)),
        units_of(outs.take(k)).len() <= units_of(outs).len(),
    decreases outs.len(),
{
    if k == outs.len() {
        assert(outs.take(k) =~= outs);
    } else {
        lemma_fold_prefix(ledger, outs.drop_last(), k);
        assert(outs.drop_last().take(k) =~= outs.take(k));
    }
}

impl Planet {
    /// A planet at `(pos_x, pos_y)` with every resource at zero, no
    /// buildings, and an empty fleet named after it.
    pub fn new(name: String, pos_x: u32, pos_y: u32) -> (r: Self)
        ensures
            r.name == name,
            r.buildings@ == Seq::<Building>::empty(),
            r.resources@ == zero_ledger(),
            r.military.wf(),
            r.military@ == map![fleet_name(name@) => Seq::<MilitaryCreationTypes>::empty()],
            r.position == (Position { x: pos_x, y: pos_y }),
    {
        let mut resources = ResourceMap::new();
        resources.insert(Resource { resource_type: ResourceType::Credits, amount: 0 });
        resources.insert(Resource { resource_type: ResourceType::Food, amount: 0 });
        resources.insert(Resource { resource_type: ResourceType::Minerals, amount: 0 });
        assert(resources@ =~= zero_ledger());

        let mut military = FleetRegistry::new();
        let default_fleet = default_fleet_name(&name);
        Planet::create_fleet(&mut military, default_fleet);
        assert(military@ =~= map![fleet_name(name@) => Seq::<MilitaryCreationTypes>::empty()]);

        Planet {
            name,
            buildings: Vec::new(),
            military,
            resources,
            position: Position { x: pos_x, y: pos_y },
        }
    }

    /// Adds each amount of `resource_to_add` to the ledger entry of its kind.
    pub fn add_resource(resource_map: &mut ResourceMap, resource_to_add: ResourceMap)
        requires
            can_credit(old(resource_map)@, resource_to_add@),
        ensures
            final(resource_map)@ == credited(old(resource_map)@, resource_to_add@),
    {
        resource_map.credit(&resource_to_add);
    }

    /// Registers an empty fleet called `name`, replacing one of that name.
    pub fn create_fleet(fleet_map: &mut FleetRegistry, name: String)
        requires
            old(fleet_map).wf(),
        ensures
            final(fleet_map).wf(),
            final(fleet_map)@ == old(fleet_map)@.insert(
                name@,
                Seq::<MilitaryCreationTypes>::empty(),
            ),
    {
        fleet_map.insert(name, Fleet::new());
    }

    /// Appends a unit to a fleet.
    pub fn add_military(fleet: &mut Fleet, military: MilitaryCreationTypes)
        ensures
            final(fleet).ships@ == old(fleet).ships@.push(military),
    {
        fleet.ships.push(military);
    }

    /// The ledger entry of `resource_type`, if the ledger tracks it.
    pub fn get_resource(&self, resource_type: ResourceType) -> (r: Option<Resource>)
        ensures
            r == entry_of(self.resources@, resource_type),
    {
        self.resources.get(resource_type)
    }

    /// Pays the building's construction cost and adds the building, or
    /// changes nothing and says why it cannot be paid.
    pub fn build_building(&mut self, building: Building) -> (r: Result<(), ResourceError>)
        requires
            debit_in_range(old(self).resources@, building.data().resource_cost@),
        ensures
            r is Ok <==> affordable(old(self).resources@, building.data().resource_cost@),
            r == Err::<(), ResourceError>(ResourceError::MissingResourceKind) <==> !tracks_all(
                old(self).resources@,
                building.data().resource_cost@,
            ),
            r == Err::<(), ResourceError>(ResourceError::InsufficientResources) <==> (tracks_all(
                old(self).resources@,
                building.data().resource_cost@,
            ) && !affordable(old(self).resources@, building.data().resource_cost@)),
            r is Ok ==> final(self).resources@ == credited(
                old(self).resources@,
                negated(building.data().resource_cost@),
            ),
            r is Ok ==> final(self).buildings@ == old(self).buildings@.push(building),
            r is Ok ==> final(self).name == old(self).name && final(self).military
                == old(self).military && final(self).position == old(self).position,
            r is Err ==> *final(self) == *old(self),
    {
        let cost = building.get_building_data().resource_cost;
        match self.resources.debit_checked(&cost) {
            Ok(()) => {
                self.buildings.push(building);
                Ok(())
            },
            Err(e) => Err(e),
        }
    }

    /// The planet can resolve a tick: every delta its buildings hand back
    /// names tracked kinds and keeps the ledger in range, and the default
    /// fleet exists wherever a unit completes.
    pub open spec fn can_resolve(self) -> bool {
        let outs = outcomes(self.buildings@);
        &&& self.military.wf()
        &&& fold_in_range(self.resources@, outs)
        &&& (units_of(outs).len() > 0 ==> self.military@.contains_key(fleet_name(self.name@)))
    }

    /// Whether a tick can be resolved now: exactly `can_resolve`.
    pub fn can_resolve_tick(&self) -> (r: bool)
        requires
            self.military.wf(),
        ensures
            r == self.can_resolve(),
    {
        let ghost outs = outcomes(self.buildings@);
        let mut ledger = self.resources;
        let mut produces = false;
        let n = self.buildings.len();
        let mut i: usize = 0;
        while i < n
            invariant
                0 <= i <= n,
                n == self.buildings@.len(),
                outs == outcomes(self.buildings@),
                ledger@ == fold_ledger(self.resources@, outs.take(i as int)),
                fold_in_range(self.resources@, outs.take(i as int)),
                produces == (units_of(outs.take(i as int)).len() > 0),
            decreases n - i,
        {
            let ghost prefix = outs.take(i as int);
            let ghost next_prefix = outs.take(i + 1);
            proof {
                assert(next_prefix.drop_last() =~= prefix);
                assert(next_prefix.last() == self.buildings@[i as int].tick_outcome());
            }
            match self.buildings[i].upcoming_delta() {
                Some(delta) => {
                    if !ledger.can_credit(&delta) {
                        proof {
                            assert(!fold_in_range(self.resources@, next_prefix));
                            if fold_in_range(self.resources@, outs) {
                                lemma_fold_prefix(self.resources@, outs, i + 1);
                            }
                        }
                        return false;
                    }
                    ledger.credit(&delta);
                },
                None => {
                    produces = true;
                },
            }
            i += 1;
        }
        proof {
            assert(outs.take(n as int) =~= outs);
        }
        if !produces {
            return true;
        }
        let default_fleet = default_fleet_name(&self.name);
        self.military.find(&default_fleet).is_some()
    }

    /// `next` is this planet after one tick: each building has ticked in
    /// order, each delta was credited to the ledger and each unit joined the
    /// default fleet.
    pub open spec fn resolves_to(self, next: Planet) -> bool {
        let outs = outcomes(self.buildings@);
        &&& next.name == self.name
        &&& next.position == self.position
        &&& next.buildings@ == ticked_buildings(self.buildings@)
        &&& next.resources@ == fold_ledger(self.resources@, outs)
        &&& next.military.wf()
        &&& next.military@ == with_units(self.military@, fleet_name(self.name@), units_of(outs))
    }

    /// Ticks every building in the order they were built and folds each
    /// outcome at once: a delta into the ledger, a unit into the default
    /// fleet.
    pub fn resolve_tick(&mut self)
        requires
            old(self).can_resolve(),
        ensures
            old(self).resolves_to(*final(self)),
    {
        let ghost start = *self;
        let ghost outs = outcomes(self.buildings@);
        let ghost fname = fleet_name(self.name@);
        let default_fleet = default_fleet_name(&self.name);
        let fleet_index = self.military.find(&default_fleet);
        let n = self.buildings.len();
        let mut i: usize = 0;
        while i < n
            invariant
                0 <= i <= n,
                n == start.buildings@.len(),
                outs == outcomes(start.buildings@),
                fname == fleet_name(start.name@),
                start.can_resolve(),
                self.name == start.name,
                self.position == start.position,
                self.buildings@.len() == n,
                forall|j: int|
                    0 <= j < i ==> self.buildings@[j] == start.buildings@[j].after_tick(),
                forall|j: int| i <= j < n ==> self.buildings@[j] == start.buildings@[j],
                self.resources@ == fold_ledger(start.resources@, outs.take(i as int)),
                self.military.wf(),
                self.military@ == with_units(start.military@, fname, units_of(outs.take(i as int))),
                fleet_index is None <==> !start.military@.contains_key(fname),
                fleet_index is Some ==> fleet_index.unwrap() < self.military.len()
                    && self.military.name_at(fleet_index.unwrap() as int) == fname,
            decreases n - i,
        {
            let ghost prefix = outs.take(i as int);
            let ghost next_prefix = outs.take(i + 1);
            proof {
                assert(next_prefix.drop_last() =~= prefix);
                lemma_fold_prefix(start.resources@, outs, i + 1);
            }
            let outcome = self.buildings[i].tick();
            proof {
                assert(next_prefix.last() == outs[i as int]);
                assert(outs[i as int] == start.buildings@[i as int].tick_outcome());
                assert(outcome == next_prefix.last());
            }
            match outcome {
                TickResult::ResourceResult(delta) => {
                    Planet::add_resource(&mut self.resources, delta);
                },
                TickResult::MilitaryBuildResult(unit) => {
                    proof {
                        assert(units_of(next_prefix).len() > 0);
                        assert(units_of(outs).len() > 0);
                        assert(start.military@.contains_key(fname));
                    }
                    match fleet_index {
                        Some(k) => {
                            Planet::add_military(self.military.fleet_mut(k), unit);
                        },
                        None => {},
                    }
                    proof {
                        let units = units_of(prefix);
                        assert(units_of(next_prefix) == units.push(unit));
                        if units.len() > 0 {
                            let home = start.military@[fname];
                            assert((home + units).push(unit) =~= home + units.push(unit));
                        } else {
                            assert(start.military@[fname].push(unit) =~= start.military@[fname]
                                + units.push(unit));
                        }
                        assert(self.military@ =~= with_units(
                            start.military@,
                            fname,
                            units_of(next_prefix),
                        ));
                    }
                },
                TickResult::Idle => {},
            }
            i += 1;
        }
        proof {
            assert(outs.take(n as int) =~= outs);
            assert(self.buildings@ =~= ticked_buildings(start.buildings@));
        }
    }
}

impl Tickable for Planet {
    open spec fn tick_ready(&self) -> bool {
        self.can_resolve()
    }

    open spec fn ticks_to(&self, next: Self, r: TickResult) -> bool {
        self.resolves_to(next) && r == TickResult::Idle
    }

    /// Resolves one tick of this planet's buildings.
    fn tick(&mut self) -> (r: TickResult) {
        self.resolve_tick();
        TickResult::Idle
    }
}

} // verus!
