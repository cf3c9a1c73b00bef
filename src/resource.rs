use vstd::prelude::*;

verus! {

/// A kind of resource that a planet keeps and that buildings produce or consume.
#[derive(Debug, Clone, Copy, PartialEq, Eq, Hash, Structural)]
pub enum ResourceType {
    Minerals,
    Credits,
    Food,
}

/// A signed amount of one resource kind.
#[derive(Debug, Clone, Copy)]
pub struct Resource {
    pub resource_type: ResourceType,
    pub amount: i32,
}

/// Why a ledger refused to pay a cost.
#[derive(Debug, Clone, Copy, PartialEq, Eq, Structural)]
pub enum ResourceError {
    /// The cost names a kind that the ledger does not track.
    MissingResourceKind,
    /// The ledger holds less of some kind than the cost asks for.
    InsufficientResources,
}

/// At most one signed amount per resource kind: a planet's ledger, a
/// building's construction cost or a per-tick production delta.
#[derive(Debug, Clone, Copy)]
pub struct ResourceMap {
    minerals: Option<i32>,
    credits: Option<i32>,
    food: Option<i32>,
}

/// `x` is a value of `i32`.
pub open spec fn fits_i32(x: int) -> bool {
    i32::MIN <= x <= i32::MAX
}

/// Every kind of `delta` is tracked by `ledger`, and adding it stays in range.
pub open spec fn can_credit(ledger: Map<ResourceType, int>, delta: Map<ResourceType, int>) -> bool {
    forall|k: ResourceType|
        #![trigger delta.contains_key(k)]
        delta.contains_key(k) ==> ledger.contains_key(k) && fits_i32(ledger[k] + delta[k])
}

/// `ledger` with each amount of `delta` added to the entry of its kind.
pub open spec fn credited(ledger: Map<ResourceType, int>, delta: Map<ResourceType, int>) -> Map<
    ResourceType,
    int,
> {
    Map::new(
        |k: ResourceType| ledger.contains_key(k),
        |k: ResourceType|
            if delta.contains_key(k) {
                ledger[k] + delta[k]
            } else {
                ledger[k]
            },
    )
}

/// The same kinds as `delta`, each amount negated.
pub open spec fn negated(delta: Map<ResourceType, int>) -> Map<ResourceType, int> {
    Map::new(|k: ResourceType| delta.contains_key(k), |k: ResourceType| -delta[k])
}

/// `ledger` tracks every kind that `cost` names.
pub open spec fn tracks_all(ledger: Map<ResourceType, int>, cost: Map<ResourceType, int>) -> bool {
    forall|k: ResourceType|
        #![trigger cost.contains_key(k)]
        cost.contains_key(k) ==> ledger.contains_key(k)
}

/// `ledger` tracks every kind of `cost` and holds at least as much of each.
pub open spec fn affordable(ledger: Map<ResourceType, int>, cost: Map<ResourceType, int>) -> bool {
    forall|k: ResourceType|
        #![trigger cost.contains_key(k)]
        cost.contains_key(k) ==> ledger.contains_key(k) && ledger[k] >= cost[k]
}

/// Paying `cost` out of `ledger` cannot exceed the largest `i32` (a negative cost).
pub open spec fn debit_in_range(
    ledger: Map<ResourceType, int>,
    cost: Map<ResourceType, int>,
) -> bool {
    forall|k: ResourceType|
        #![trigger cost.contains_key(k)]
        cost.contains_key(k) && ledger.contains_key(k) ==> ledger[k] - cost[k] <= i32::MAX
}

/// The entry that a lookup of `kind` in `m` yields.
pub open spec fn entry_of(m: Map<ResourceType, int>, kind: ResourceType) -> Option<Resource> {
    if m.contains_key(kind) {
        Some(Resource { resource_type: kind, amount: m[kind] as i32 })
    } else {
        None
    }
}

fn slot_credit(slot: &mut Option<i32>, delta: Option<i32>)
    requires
        delta is Some ==> (*old(slot)) is Some && fits_i32(
            (*old(slot)).unwrap() as int + delta.unwrap() as int,
        ),
    ensures
        *final(slot) == (match delta {
            Some(d) => Some(((*old(slot)).unwrap() + d) as i32),
            None => *old(slot),
        }),
{
    if let Some(d) = delta {
        if let Some(have) = *slot {
            *slot = Some(have + d);
        }
    }
}

fn slot_fits(have: Option<i32>, delta: Option<i32>) -> (r: bool)
    ensures
        r == (delta is Some ==> have is Some && fits_i32(
            have.unwrap() as int + delta.unwrap() as int,
        )),
{
    match (have, delta) {
        (_, None) => true,
        (None, Some(_)) => false,
        (Some(h), Some(d)) => h.checked_add(d).is_some(),
    }
}

fn slot_missing(have: Option<i32>, need: Option<i32>) -> (r: bool)
    ensures
        r == (need is Some && have is None),
{
    need.is_some() && have.is_none()
}

fn slot_short(have: Option<i32>, need: Option<i32>) -> (r: bool)
    ensures
        r == (need is Some && have is Some && have.unwrap() < need.unwrap()),
{
    match (have, need) {
        (Some(h), Some(n)) => h < n,
        _ => false,
    }
}

fn slot_debit(slot: &mut Option<i32>, cost: Option<i32>)
    requires
        cost is Some ==> (*old(slot)) is Some && (*old(slot)).unwrap() >= cost.unwrap()
            && (*old(slot)).unwrap() - cost.unwrap() <= i32::MAX,
    ensures
        *final(slot) == (match cost {
            Some(c) => Some(((*old(slot)).unwrap() - c) as i32),
            None => *old(slot),
        }),
{
    if let Some(c) = cost {
        if let Some(have) = *slot {
            *slot = Some(have - c);
        }
    }
}

impl ResourceMap {
    /// The amount stored for `kind`, if any.
    pub closed spec fn slot(self, kind: ResourceType) -> Option<i32> {
        match kind {
            ResourceType::Minerals => self.minerals,
            ResourceType::Credits => self.credits,
            ResourceType::Food => self.food,
        }
    }

    /// A map that holds no kind.
    pub fn new() -> (r: ResourceMap)
        ensures
            r@ == Map::<ResourceType, int>::empty(),
    {
        let r = ResourceMap { minerals: None, credits: None, food: None };
        assert(r@ =~= Map::<ResourceType, int>::empty());
        r
    }

    /// Sets the entry of `resource.resource_type` to `resource.amount`.
    pub fn insert(&mut self, resource: Resource)
        ensures
            final(self)@ == old(self)@.insert(resource.resource_type, resource.amount as int),
    {
        match resource.resource_type {
            ResourceType::Minerals => self.minerals = Some(resource.amount),
            ResourceType::Credits => self.credits = Some(resource.amount),
            ResourceType::Food => self.food = Some(resource.amount),
        }
        assert(final(self)@ =~= old(self)@.insert(resource.resource_type, resource.amount as int));
    }

    /// The entry of `kind`, if this map holds one.
    pub fn get(&self, kind: ResourceType) -> (r: Option<Resource>)
        ensures
            r == entry_of(self@, kind),
    {
        let slot = match kind {
            ResourceType::Minerals => self.minerals,
            ResourceType::Credits => self.credits,
            ResourceType::Food => self.food,
        };
        match slot {
            Some(amount) => Some(Resource { resource_type: kind, amount }),
            None => None,
        }
    }

    /// Whether `credit(delta)` is allowed on this map.
    pub fn can_credit(&self, delta: &ResourceMap) -> (r: bool)
        ensures
            r == can_credit(self@, delta@),
    {
        assert(delta.minerals is Some ==> delta@.contains_key(ResourceType::Minerals));
        assert(delta.credits is Some ==> delta@.contains_key(ResourceType::Credits));
        assert(delta.food is Some ==> delta@.contains_key(ResourceType::Food));
        slot_fits(self.minerals, delta.minerals) && slot_fits(self.credits, delta.credits)
            && slot_fits(self.food, delta.food)
    }

    /// Adds each amount of `delta` to the entry of its kind.
    pub fn credit(&mut self, delta: &ResourceMap)
        requires
            can_credit(old(self)@, delta@),
        ensures
            final(self)@ == credited(old(self)@, delta@),
    {
        assert(delta.minerals is Some ==> delta@.contains_key(ResourceType::Minerals));
        assert(delta.credits is Some ==> delta@.contains_key(ResourceType::Credits));
        assert(delta.food is Some ==> delta@.contains_key(ResourceType::Food));
        slot_credit(&mut self.minerals, delta.minerals);
        slot_credit(&mut self.credits, delta.credits);
        slot_credit(&mut self.food, delta.food);
        assert(final(self)@ =~= credited(old(self)@, delta@));
    }

    /// Pays `cost` out of this ledger, all of it or nothing: every kind is
    /// checked before any amount is taken.
    pub fn debit_checked(&mut self, cost: &ResourceMap) -> (r: Result<(), ResourceError>)
        requires
            debit_in_range(old(self)@, cost@),
        ensures
            r is Ok <==> affordable(old(self)@, cost@),
            r == Err::<(), ResourceError>(ResourceError::MissingResourceKind) <==> !tracks_all(
                old(self)@,
                cost@,
            ),
            r == Err::<(), ResourceError>(ResourceError::InsufficientResources) <==> (tracks_all(
                old(self)@,
                cost@,
            ) && !affordable(old(self)@, cost@)),
            r is Ok ==> final(self)@ == credited(old(self)@, negated(cost@)),
            r is Err ==> *final(self) == *old(self),
    {
        assert(cost.minerals is Some ==> cost@.contains_key(ResourceType::Minerals));
        assert(cost.credits is Some ==> cost@.contains_key(ResourceType::Credits));
        assert(cost.food is Some ==> cost@.contains_key(ResourceType::Food));
        if slot_missing(self.minerals, cost.minerals) || slot_missing(self.credits, cost.credits)
            || slot_missing(self.food, cost.food) {
            return Err(ResourceError::MissingResourceKind);
        }
        if slot_short(self.minerals, cost.minerals) || slot_short(self.credits, cost.credits)
            || slot_short(self.food, cost.food) {
            return Err(ResourceError::InsufficientResources);
        }
        slot_debit(&mut self.minerals, cost.minerals);
        slot_debit(&mut self.credits, cost.credits);
        slot_debit(&mut self.food, cost.food);
        assert(final(self)@ =~= credited(old(self)@, negated(cost@)));
        Ok(())
    }
}

/// Crediting a delta and then its negation gives the ledger back exactly.
pub proof fn lemma_credit_round_trip(ledger: Map<ResourceType, int>, delta: Map<ResourceType, int>)
    ensures
        credited(credited(ledger, delta), negated(delta)) == ledger,
{
    assert(credited(credited(ledger, delta), negated(delta)) =~= ledger);
}

impl View for ResourceMap {
    type V = Map<ResourceType, int>;

    closed spec fn view(&self) -> Map<ResourceType, int> {
        Map::new(
            |k: ResourceType| self.slot(k) is Some,
            |k: ResourceType| self.slot(k).unwrap() as int,
        )
    }
}

} // verus!
