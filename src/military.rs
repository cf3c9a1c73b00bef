use vstd::prelude::*;

verus! {

/// The template of a military unit.
#[derive(Debug, Clone)]
pub struct MilitaryCreation {
    pub name: String,
    pub level: u32,
    pub attack: u32,
    pub defence: u32,
}

/// A produced military unit: a ship or a defence turret built from a template.
#[derive(Debug, Clone)]
pub enum MilitaryCreationTypes {
    Ship(MilitaryCreation),
    DefenceTurret(MilitaryCreation),
}

/// An ordered collection of completed units.
pub struct Fleet {
    pub ships: Vec<MilitaryCreationTypes>,
}

/// A planet's fleets, keyed by name; a name occurs at most once.
pub struct FleetRegistry {
    names: Vec<String>,
    fleets: Vec<Fleet>,
}

impl MilitaryCreation {
    pub fn new(name: String, level: u32, attack: u32, defence: u32) -> (r: Self)
        ensures
            r.name == name,
            r.level == level,
            r.attack == attack,
            r.defence == defence,
    {
        MilitaryCreation { name, level, attack, defence }
    }

    /// A copy equal to this template in every field.
    pub fn duplicate(&self) -> (r: Self)
        ensures
            r == *self,
    {
        MilitaryCreation {
            name: self.name.clone(),
            level: self.level,
            attack: self.attack,
            defence: self.defence,
        }
    }
}

impl MilitaryCreationTypes {
    /// A copy equal to this unit.
    pub fn duplicate(&self) -> (r: Self)
        ensures
            r == *self,
    {
        match self {
            MilitaryCreationTypes::Ship(c) => MilitaryCreationTypes::Ship(c.duplicate()),
            MilitaryCreationTypes::DefenceTurret(c) => MilitaryCreationTypes::DefenceTurret(
                c.duplicate(),
            ),
        }
    }
}

impl Fleet {
    /// A fleet without units.
    pub fn new() -> (r: Fleet)
        ensures
            r.ships@ == Seq::<MilitaryCreationTypes>::empty(),
    {
        Fleet { ships: Vec::new() }
    }
}

impl FleetRegistry {
    /// Names and fleets pair up, and no name occurs twice.
    pub closed spec fn wf(&self) -> bool {
        &&& self.names@.len() == self.fleets@.len()
        &&& forall|i: int, j: int|
            0 <= i < j < self.names@.len() ==> #[trigger] self.names@[i]@
                != #[trigger] self.names@[j]@
    }

    /// The fleet at position `i` is called `name`.
    closed spec fn has_name_at(&self, name: Seq<char>, i: int) -> bool {
        0 <= i < self.names@.len() && self.names@[i]@ == name
    }

    /// The fleets as a map from name to the units they hold.
    pub closed spec fn view(&self) -> Map<Seq<char>, Seq<MilitaryCreationTypes>> {
        Map::new(
            |n: Seq<char>| exists|i: int| self.has_name_at(n, i),
            |n: Seq<char>| self.fleets@[choose|i: int| self.has_name_at(n, i)].ships@,
        )
    }

    /// The view maps each stored name to the fleet stored beside it.
    proof fn lemma_lookup(&self, i: int)
        requires
            self.wf(),
            0 <= i < self.names@.len(),
        ensures
            self@.contains_key(self.names@[i]@),
            self@[self.names@[i]@] == self.fleets@[i].ships@,
    {
        let n = self.names@[i]@;
        assert(self.has_name_at(n, i));
        let j = choose|j: int| self.has_name_at(n, j);
        assert(self.has_name_at(n, j));
        if i < j {
            assert(self.names@[i]@ != self.names@[j]@);
        } else if j < i {
            assert(self.names@[j]@ != self.names@[i]@);
        }
    }

    /// Replacing the fleet at position `i` replaces the value of its name.
    proof fn lemma_replaced(before: FleetRegistry, after: FleetRegistry, i: int)
        requires
            before.wf(),
            0 <= i < before.names@.len(),
            after.names == before.names,
            after.fleets@ == before.fleets@.update(i, after.fleets@[i]),
        ensures
            after.wf(),
            after@ == before@.insert(before.names@[i]@, after.fleets@[i].ships@),
    {
        let name = before.names@[i]@;
        let ships = after.fleets@[i].ships@;
        assert forall|n: Seq<char>| #[trigger]
            after@.contains_key(n) == before@.insert(name, ships).contains_key(n) by {
            if before@.contains_key(n) {
                let j = choose|j: int| before.has_name_at(n, j);
                assert(after.has_name_at(n, j));
            }
            if n == name {
                assert(after.has_name_at(n, i));
            }
            if after@.contains_key(n) {
                let j = choose|j: int| after.has_name_at(n, j);
                assert(before.has_name_at(n, j));
            }
        }
        assert forall|n: Seq<char>| #[trigger] after@.contains_key(n) implies after@[n]
            == before@.insert(name, ships)[n] by {
            let j = choose|j: int| after.has_name_at(n, j);
            assert(after.has_name_at(n, j));
            after.lemma_lookup(j);
            before.lemma_lookup(j);
            if n == name {
                before.lemma_lookup(i);
                assert(j == i) by {
                    if j != i {
                        assert(before.names@[j]@ == before.names@[i]@);
                    }
                }
            }
        }
        assert(after@ =~= before@.insert(name, ships));
    }

    /// The fleet at position `i`, to be changed in place.
    pub fn fleet_mut(&mut self, i: usize) -> (f: &mut Fleet)
        requires
            old(self).wf(),
            i < old(self).len(),
        ensures
            old(self)@.contains_key(old(self).name_at(i as int)),
            f.ships@ == old(self)@[old(self).name_at(i as int)],
            final(self).wf(),
            final(self).len() == old(self).len(),
            forall|j: int| #![auto] final(self).name_at(j) == old(self).name_at(j),
            final(self)@ == old(self)@.insert(old(self).name_at(i as int), final(f).ships@),
    {
        proof {
            self.lemma_lookup(i as int);
            assert forall|after: FleetRegistry|
                after.names == self.names && after.fleets@ == self.fleets@.update(
                    i as int,
                    #[trigger] after.fleets@[i as int],
                ) implies after.wf() && after@ == self@.insert(
                    self.names@[i as int]@,
                    after.fleets@[i as int].ships@,
                ) by {
                FleetRegistry::lemma_replaced(*self, after, i as int);
            }
        }
        &mut self.fleets[i]
    }

    /// A registry without fleets.
    pub fn new() -> (r: FleetRegistry)
        ensures
            r.wf(),
            r@ == Map::<Seq<char>, Seq<MilitaryCreationTypes>>::empty(),
    {
        let r = FleetRegistry { names: Vec::new(), fleets: Vec::new() };
        assert(r@ =~= Map::<Seq<char>, Seq<MilitaryCreationTypes>>::empty());
        r
    }

    /// The position of the fleet called `name`, if there is one.
    pub fn find(&self, name: &String) -> (r: Option<usize>)
        requires
            self.wf(),
        ensures
            r is None <==> !self@.contains_key(name@),
            r is Some ==> self.fleet_at(r.unwrap() as int) == self@[name@] && r.unwrap()
                < self.len(),
            r is Some ==> self.name_at(r.unwrap() as int) == name@,
    {
        let mut i: usize = 0;
        while i < self.names.len()
            invariant
                self.wf(),
                0 <= i <= self.names@.len(),
                forall|j: int| 0 <= j < i ==> self.names@[j]@ != name@,
            decreases self.names@.len() - i,
        {
            if self.names[i] == *name {
                proof {
                    self.lemma_lookup(i as int);
                }
                return Some(i);
            }
            i += 1;
        }
        assert(!self@.contains_key(name@)) by {
            if self@.contains_key(name@) {
                let j = choose|j: int| self.has_name_at(name@, j);
            }
        }
        None
    }

    /// The number of fleets.
    pub closed spec fn len(&self) -> nat {
        self.names@.len()
    }

    /// The name of the fleet at position `i`.
    pub closed spec fn name_at(&self, i: int) -> Seq<char> {
        self.names@[i]@
    }

    /// The units of the fleet at position `i`.
    pub closed spec fn fleet_at(&self, i: int) -> Seq<MilitaryCreationTypes> {
        self.fleets@[i].ships@
    }

    /// The fleet called `name`, if there is one.
    pub fn get(&self, name: &String) -> (r: Option<&Fleet>)
        requires
            self.wf(),
        ensures
            r is None <==> !self@.contains_key(name@),
            r is Some ==> r.unwrap().ships@ == self@[name@],
    {
        match self.find(name) {
            Some(i) => {
                proof {
                    self.lemma_lookup(i as int);
                }
                Some(&self.fleets[i])
            },
            None => None,
        }
    }

    /// Registers `fleet` under `name`, replacing a fleet of that name.
    pub fn insert(&mut self, name: String, fleet: Fleet)
        requires
            old(self).wf(),
        ensures
            final(self).wf(),
            final(self)@ == old(self)@.insert(name@, fleet.ships@),
    {
        match self.find(&name) {
            Some(i) => {
                let ghost before = *self;
                self.fleets.set(i, fleet);
                proof {
                    FleetRegistry::lemma_replaced(before, *self, i as int);
                }
            },
            None => {
                let ghost before = *self;
                self.names.push(name);
                self.fleets.push(fleet);
                proof {
                    let last = before.names@.len() as int;
                    assert forall|a: int, b: int|
                        0 <= a < b < self.names@.len() implies #[trigger] self.names@[a]@
                        != #[trigger] self.names@[b]@ by {
                        if b == last {
                            if self.names@[a]@ == self.names@[b]@ {
                                assert(before.has_name_at(name@, a));
                            }
                        }
                    }
                    assert forall|n: Seq<char>| #[trigger]
                        self@.contains_key(n) == before@.insert(name@, fleet.ships@).contains_key(
                            n,
                        ) by {
                        if before@.contains_key(n) {
                            let j = choose|j: int| before.has_name_at(n, j);
                            assert(self.has_name_at(n, j));
                        }
                        if n == name@ {
                            assert(self.has_name_at(n, last));
                        }
                        if self@.contains_key(n) {
                            let j = choose|j: int| self.has_name_at(n, j);
                            if j < last {
                                assert(before.has_name_at(n, j));
                            }
                        }
                    }
                    assert forall|n: Seq<char>| #[trigger] self@.contains_key(n) implies self@[n]
                        == before@.insert(name@, fleet.ships@)[n] by {
                        let j = choose|j: int| self.has_name_at(n, j);
                        assert(self.has_name_at(n, j));
                        self.lemma_lookup(j);
                        if j < last {
                            before.lemma_lookup(j);
                        }
                    }
                    assert(self@ =~= before@.insert(name@, fleet.ships@));
                }
            },
        }
    }
}

} // verus!
