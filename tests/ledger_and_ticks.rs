use colony_sim::buildings::{Building, BuildingData, MilitaryBuilding, ResourceBuilding};
use colony_sim::game_world::GameWorld;
use colony_sim::military::{Fleet, FleetRegistry, MilitaryCreation, MilitaryCreationTypes};
use colony_sim::planet::Planet;
use colony_sim::resource::{Resource, ResourceError, ResourceMap, ResourceType};
use colony_sim::tickable::{TickResult, Tickable};

fn amounts(pairs: &[(ResourceType, i32)]) -> ResourceMap {
    let mut m = ResourceMap::new();
    for (kind, amount) in pairs {
        m.insert(Resource {
            resource_type: *kind,
            amount: *amount,
        });
    }
    m
}

fn amount_of(p: &Planet, kind: ResourceType) -> i32 {
    p.get_resource(kind).unwrap().amount
}

fn resource_building(cost: ResourceMap, production: ResourceMap) -> Building {
    Building::ResourceBuilding(ResourceBuilding {
        building: BuildingData {
            name: String::from("Mine"),
            resource_cost: cost,
            level: 1,
        },
        create_type: production,
    })
}

fn ship(name: &str) -> MilitaryCreationTypes {
    MilitaryCreationTypes::Ship(MilitaryCreation::new(String::from(name), 1, 5, 5))
}

fn barracks(cost_per_tick: ResourceMap, required: u32, per_tick: u32) -> MilitaryBuilding {
    MilitaryBuilding::new(
        String::from("Shipyard"),
        ResourceMap::new(),
        ship("Corvette"),
        cost_per_tick,
        required,
        per_tick,
    )
}

#[test]
fn credit_then_negated_credit_restores_ledger() {
    let start = amounts(&[
        (ResourceType::Minerals, 3),
        (ResourceType::Credits, -7),
        (ResourceType::Food, 12),
    ]);
    let delta = amounts(&[(ResourceType::Minerals, 40), (ResourceType::Food, -9)]);
    let negated = amounts(&[(ResourceType::Minerals, -40), (ResourceType::Food, 9)]);
    let mut ledger = start;
    Planet::add_resource(&mut ledger, delta);
    assert_eq!(ledger.get(ResourceType::Minerals).unwrap().amount, 43);
    assert_eq!(ledger.get(ResourceType::Credits).unwrap().amount, -7);
    assert_eq!(ledger.get(ResourceType::Food).unwrap().amount, 3);
    Planet::add_resource(&mut ledger, negated);
    for kind in [ResourceType::Minerals, ResourceType::Credits, ResourceType::Food] {
        assert_eq!(
            ledger.get(kind).unwrap().amount,
            start.get(kind).unwrap().amount
        );
    }
}

#[test]
fn failed_build_leaves_ledger_and_buildings_unchanged() {
    let mut planet = Planet::new(String::from("Vega"), 1, 2);
    Planet::add_resource(
        &mut planet.resources,
        amounts(&[
            (ResourceType::Minerals, 100),
            (ResourceType::Credits, 7),
            (ResourceType::Food, 1),
        ]),
    );
    let cost = amounts(&[(ResourceType::Minerals, 50), (ResourceType::Credits, 8)]);
    let r = planet.build_building(resource_building(cost, ResourceMap::new()));
    assert_eq!(r, Err(ResourceError::InsufficientResources));
    assert_eq!(amount_of(&planet, ResourceType::Minerals), 100);
    assert_eq!(amount_of(&planet, ResourceType::Credits), 7);
    assert_eq!(amount_of(&planet, ResourceType::Food), 1);
    assert_eq!(planet.buildings.len(), 0);
}

#[test]
fn resource_building_accumulates_linearly() {
    let mut planet = Planet::new(String::from("Vega"), 0, 0);
    let production = amounts(&[(ResourceType::Minerals, 10)]);
    assert!(planet
        .build_building(resource_building(ResourceMap::new(), production))
        .is_ok());
    assert!(planet.can_resolve_tick());
    planet.resolve_tick();
    assert_eq!(amount_of(&planet, ResourceType::Minerals), 10);
    planet.resolve_tick();
    assert_eq!(amount_of(&planet, ResourceType::Minerals), 20);
    assert_eq!(amount_of(&planet, ResourceType::Credits), 0);
    assert_eq!(amount_of(&planet, ResourceType::Food), 0);
}

#[test]
fn food_cost_needs_food() {
    let mut planet = Planet::new(String::from("Vega"), 0, 0);
    let cost = amounts(&[(ResourceType::Food, 5)]);
    assert_eq!(
        planet.build_building(resource_building(cost, ResourceMap::new())),
        Err(ResourceError::InsufficientResources)
    );
    Planet::add_resource(&mut planet.resources, amounts(&[(ResourceType::Food, 5)]));
    assert_eq!(
        planet.build_building(resource_building(cost, ResourceMap::new())),
        Ok(())
    );
    assert_eq!(amount_of(&planet, ResourceType::Food), 0);
    assert_eq!(planet.buildings.len(), 1);
}

#[test]
fn military_building_charges_then_completes() {
    let mut b = barracks(amounts(&[(ResourceType::Credits, -10)]), 20, 10);
    match b.tick() {
        TickResult::ResourceResult(delta) => {
            assert_eq!(delta.get(ResourceType::Credits).unwrap().amount, -10);
            assert!(delta.get(ResourceType::Food).is_none());
        }
        _ => panic!("the first tick charges"),
    }
    assert_eq!(b.current_progress, 10);
    match b.tick() {
        TickResult::MilitaryBuildResult(MilitaryCreationTypes::Ship(c)) => {
            assert_eq!(c.name, "Corvette");
        }
        _ => panic!("the second tick completes a ship"),
    }
    assert_eq!(b.current_progress, 0);
}

#[test]
fn default_fleet_gets_the_unit_on_completion() {
    let mut planet = Planet::new(String::from("Vega"), 0, 0);
    Planet::add_resource(&mut planet.resources, amounts(&[(ResourceType::Credits, 100)]));
    let b = barracks(amounts(&[(ResourceType::Credits, -10)]), 20, 10);
    assert!(planet
        .build_building(Building::MilitaryBuilding(b))
        .is_ok());
    let fleet_name = String::from("Vega fleet");
    planet.resolve_tick();
    assert_eq!(amount_of(&planet, ResourceType::Credits), 90);
    assert_eq!(planet.military.get(&fleet_name).unwrap().ships.len(), 0);
    planet.resolve_tick();
    assert_eq!(amount_of(&planet, ResourceType::Credits), 90);
    assert_eq!(planet.military.get(&fleet_name).unwrap().ships.len(), 1);
}

fn colony(name: &str, production: ResourceMap, with_barracks: bool) -> Planet {
    let mut planet = Planet::new(String::from(name), 0, 0);
    Planet::add_resource(&mut planet.resources, amounts(&[(ResourceType::Food, 50)]));
    assert!(planet
        .build_building(resource_building(ResourceMap::new(), production))
        .is_ok());
    if with_barracks {
        let b = barracks(amounts(&[(ResourceType::Food, -4)]), 30, 10);
        assert!(planet
            .build_building(Building::MilitaryBuilding(b))
            .is_ok());
    }
    planet
}

#[test]
fn world_ticks_planets_as_if_alone() {
    let a_prod = amounts(&[(ResourceType::Minerals, 3), (ResourceType::Credits, -1)]);
    let b_prod = amounts(&[(ResourceType::Food, 2)]);
    let mut world = GameWorld::new(vec![colony("A", a_prod, true), colony("B", b_prod, false)]);
    let mut alone_a = colony("A", a_prod, true);
    let mut alone_b = colony("B", b_prod, false);
    for _ in 0..4 {
        assert!(matches!(world.tick(), TickResult::Idle));
        alone_a.resolve_tick();
        alone_b.resolve_tick();
    }
    for kind in [ResourceType::Minerals, ResourceType::Credits, ResourceType::Food] {
        assert_eq!(amount_of(&world.planets[0], kind), amount_of(&alone_a, kind));
        assert_eq!(amount_of(&world.planets[1], kind), amount_of(&alone_b, kind));
    }
    assert_eq!(amount_of(&world.planets[0], ResourceType::Minerals), 12);
    assert_eq!(amount_of(&world.planets[0], ResourceType::Credits), -4);
    // upkeep on ticks one, two and four; a unit on tick three
    assert_eq!(amount_of(&world.planets[0], ResourceType::Food), 38);
    assert_eq!(amount_of(&world.planets[1], ResourceType::Food), 58);
    let fleet = world.planets[0].military.get(&String::from("A fleet")).unwrap();
    assert_eq!(fleet.ships.len(), 1);
}

#[test]
fn multi_kind_cost_fails_if_either_kind_is_short() {
    let cost = amounts(&[(ResourceType::Food, 5), (ResourceType::Minerals, 3)]);
    let mut short_on_food = Planet::new(String::from("A"), 0, 0);
    Planet::add_resource(
        &mut short_on_food.resources,
        amounts(&[(ResourceType::Food, 4), (ResourceType::Minerals, 1000)]),
    );
    assert_eq!(
        short_on_food.build_building(resource_building(cost, ResourceMap::new())),
        Err(ResourceError::InsufficientResources)
    );
    let mut short_on_minerals = Planet::new(String::from("B"), 0, 0);
    Planet::add_resource(
        &mut short_on_minerals.resources,
        amounts(&[(ResourceType::Food, 1000), (ResourceType::Minerals, 2)]),
    );
    assert_eq!(
        short_on_minerals.build_building(resource_building(cost, ResourceMap::new())),
        Err(ResourceError::InsufficientResources)
    );
    let mut enough = Planet::new(String::from("C"), 0, 0);
    Planet::add_resource(
        &mut enough.resources,
        amounts(&[(ResourceType::Food, 5), (ResourceType::Minerals, 3)]),
    );
    assert_eq!(
        enough.build_building(resource_building(cost, ResourceMap::new())),
        Ok(())
    );
    assert_eq!(amount_of(&enough, ResourceType::Food), 0);
    assert_eq!(amount_of(&enough, ResourceType::Minerals), 0);
}

#[test]
fn cost_of_untracked_kind_is_missing_resource_kind() {
    let mut planet = Planet::new(String::from("Vega"), 0, 0);
    planet.resources = amounts(&[(ResourceType::Food, 100), (ResourceType::Minerals, 0)]);
    let cost = amounts(&[(ResourceType::Minerals, 5), (ResourceType::Credits, 1)]);
    assert_eq!(
        planet.build_building(resource_building(cost, ResourceMap::new())),
        Err(ResourceError::MissingResourceKind)
    );
    assert_eq!(amount_of(&planet, ResourceType::Food), 100);
    assert!(planet.get_resource(ResourceType::Credits).is_none());
}

#[test]
fn new_planet_tracks_every_kind_at_zero() {
    let planet = Planet::new(String::from("Vega"), 4, 9);
    for kind in [ResourceType::Minerals, ResourceType::Credits, ResourceType::Food] {
        let r = planet.get_resource(kind).unwrap();
        assert_eq!(r.resource_type, kind);
        assert_eq!(r.amount, 0);
    }
    assert_eq!(planet.position.x, 4);
    assert_eq!(planet.position.y, 9);
    assert!(planet.buildings.is_empty());
    let fleet = planet.military.get(&String::from("Vega fleet")).unwrap();
    assert!(fleet.ships.is_empty());
    assert!(planet.military.get(&String::from("Vega")).is_none());
}

#[test]
fn negative_balances_are_kept() {
    let mut planet = Planet::new(String::from("Vega"), 0, 0);
    let production = amounts(&[(ResourceType::Credits, -5)]);
    assert!(planet
        .build_building(resource_building(ResourceMap::new(), production))
        .is_ok());
    planet.resolve_tick();
    planet.resolve_tick();
    assert_eq!(amount_of(&planet, ResourceType::Credits), -10);
}

#[test]
fn tick_readiness_checks_deltas_and_fleet() {
    let mut untracked = Planet::new(String::from("A"), 0, 0);
    untracked.resources = amounts(&[(ResourceType::Food, 0)]);
    assert!(untracked
        .build_building(resource_building(
            ResourceMap::new(),
            amounts(&[(ResourceType::Credits, 1)])
        ))
        .is_ok());
    assert!(!untracked.can_resolve_tick());

    let mut overflowing = Planet::new(String::from("B"), 0, 0);
    Planet::add_resource(
        &mut overflowing.resources,
        amounts(&[(ResourceType::Minerals, i32::MAX - 1)]),
    );
    assert!(overflowing
        .build_building(resource_building(
            ResourceMap::new(),
            amounts(&[(ResourceType::Minerals, 1)])
        ))
        .is_ok());
    assert!(overflowing.can_resolve_tick());
    overflowing.resolve_tick();
    assert!(!overflowing.can_resolve_tick());

    let mut fleetless = Planet::new(String::from("C"), 0, 0);
    fleetless.military = FleetRegistry::new();
    let b = barracks(ResourceMap::new(), 10, 10);
    assert!(fleetless
        .build_building(Building::MilitaryBuilding(b))
        .is_ok());
    assert!(!fleetless.can_resolve_tick());
}

#[test]
fn progress_never_overflows() {
    let mut b = barracks(ResourceMap::new(), u32::MAX, 10);
    b.current_progress = u32::MAX - 5;
    assert!(b.completes_next());
    assert!(matches!(b.tick(), TickResult::MilitaryBuildResult(_)));
    assert_eq!(b.current_progress, 0);

    let mut instant = barracks(ResourceMap::new(), 0, 0);
    assert!(matches!(instant.tick(), TickResult::MilitaryBuildResult(_)));
    assert_eq!(instant.current_progress, 0);
}

#[test]
fn upcoming_delta_matches_the_tick() {
    let mut b = Building::MilitaryBuilding(barracks(
        amounts(&[(ResourceType::Food, -2)]),
        15,
        10,
    ));
    let d = b.upcoming_delta().unwrap();
    assert_eq!(d.get(ResourceType::Food).unwrap().amount, -2);
    assert!(matches!(b.tick(), TickResult::ResourceResult(_)));
    assert!(b.upcoming_delta().is_none());
    assert!(matches!(b.tick(), TickResult::MilitaryBuildResult(_)));
    assert_eq!(b.get_building_data().name, "Shipyard");
    assert_eq!(b.get_building_data().level, 1);
}

#[test]
fn fleets_are_keyed_by_name() {
    let mut registry = FleetRegistry::new();
    assert!(registry.get(&String::from("Home")).is_none());
    Planet::create_fleet(&mut registry, String::from("Home"));
    Planet::create_fleet(&mut registry, String::from("Raiders"));
    let i = registry.find(&String::from("Raiders")).unwrap();
    Planet::add_military(registry.fleet_mut(i), ship("Frigate"));
    assert_eq!(registry.get(&String::from("Raiders")).unwrap().ships.len(), 1);
    assert_eq!(registry.get(&String::from("Home")).unwrap().ships.len(), 0);
    // registering a name again replaces that fleet with an empty one
    Planet::create_fleet(&mut registry, String::from("Raiders"));
    assert_eq!(registry.get(&String::from("Raiders")).unwrap().ships.len(), 0);
    let mut fleet = Fleet::new();
    Planet::add_military(&mut fleet, ship("Frigate"));
    Planet::add_military(&mut fleet, MilitaryCreationTypes::DefenceTurret(MilitaryCreation::new(
        String::from("Turret"),
        2,
        1,
        9,
    )));
    assert_eq!(fleet.ships.len(), 2);
}

#[test]
fn unit_templates_keep_their_fields() {
    let c = MilitaryCreation::new(String::from("Cruiser"), 3, 40, 25);
    assert_eq!(c.name, "Cruiser");
    assert_eq!((c.level, c.attack, c.defence), (3, 40, 25));
    let d = c.duplicate();
    assert_eq!(d.name, "Cruiser");
    assert_eq!((d.level, d.attack, d.defence), (3, 40, 25));
    let b = barracks(ResourceMap::new(), 20, 10);
    assert_eq!(b.building.level, 1);
    assert_eq!(b.current_progress, 0);
    assert_eq!(b.progress_required_to_create_military, 20);
    assert_eq!(b.progress_increase_per_tick, 10);
}
