use vstd::prelude::*;

use crate::ecs::component::{ComponentId, UNPLACED_PHYSICS_COMPONENT_ID};
use crate::ecs::concepts::{ConceptManager, ConceptMap};
use crate::ecs::entity::EntityId;

verus! {

/// A force that acts for a while. Times are in microseconds of the engine clock.
pub struct Impulse<F> {
    pub force: F,
    pub initialized_instant: u64,
    pub duration: u64,
}

/// Whether the impulse has run its course at time `now`.
pub open spec fn impulse_expired<F>(i: Impulse<F>, now: u64) -> bool {
    now >= i.initialized_instant + i.duration
}

/// The impulses, in order, that remain after removing at time `now`.
pub open spec fn impulses_kept<F>(impulses: Seq<Impulse<F>>, now: u64) -> Seq<Impulse<F>> {
    impulses.filter(|i: Impulse<F>| impulse_expired(i, now))
}

/// Physical state of an entity: its quantities are concepts that it shares
/// through the concept manager; its impulses it keeps itself.
pub struct PhysicsComponent<F> {
    parent: EntityId,
    concept_ids: Vec<String>,
    id: ComponentId,
    impulses: Vec<Impulse<F>>,
}

impl<F> PhysicsComponent<F> {
    pub closed spec fn view_parent(&self) -> EntityId {
        self.parent
    }

    pub closed spec fn view_id(&self) -> ComponentId {
        self.id
    }

    pub closed spec fn view_concept_ids(&self) -> Seq<Seq<char>> {
        self.concept_ids@.map_values(|s: String| s@)
    }

    pub closed spec fn view_impulses(&self) -> Seq<Impulse<F>> {
        self.impulses@
    }

    /// Registers the component's five quantities with the concept manager,
    /// under the names "velocity", "net_force", "mass", "angular_velocity"
    /// and "net_torque".
    pub fn new<V>(
        concept_manager: &mut ConceptManager<V>,
        velocity: V,
        net_force: V,
        mass: V,
        angular_velocity: V,
        net_torque: V,
    ) -> (r: Self)
        requires
            old(concept_manager).wf(),
        ensures
            final(concept_manager).wf(),
            r.view_parent() == EntityId::MAX,
            r.view_id() == UNPLACED_PHYSICS_COMPONENT_ID,
            r.view_impulses() == Seq::<Impulse<F>>::empty(),
            final(concept_manager)@ == old(concept_manager)@.insert(
                UNPLACED_PHYSICS_COMPONENT_ID,
                Map::<Seq<char>, V>::empty().insert("velocity"@, velocity).insert(
                    "net_force"@,
                    net_force,
                ).insert("mass"@, mass).insert("angular_velocity"@, angular_velocity).insert(
                    "net_torque"@,
                    net_torque,
                ),
            ),
            r.view_concept_ids().len() == 5,
            r.view_concept_ids().no_duplicates(),
            r.view_concept_ids().to_set() == set![
                "velocity"@,
                "net_force"@,
                "mass"@,
                "angular_velocity"@,
                "net_torque"@,
            ],
    {
        let mut component = PhysicsComponent {
            parent: EntityId::MAX,
            concept_ids: Vec::new(),
            id: UNPLACED_PHYSICS_COMPONENT_ID,
            impulses: Vec::new(),
        };
        let mut concepts: ConceptMap<V> = ConceptMap::new();
        concepts.insert(String::from_str("velocity"), velocity);
        concepts.insert(String::from_str("net_force"), net_force);
        concepts.insert(String::from_str("mass"), mass);
        concepts.insert(String::from_str("angular_velocity"), angular_velocity);
        concepts.insert(String::from_str("net_torque"), net_torque);
        proof {
            reveal_strlit("velocity");
            reveal_strlit("net_force");
            reveal_strlit("mass");
            reveal_strlit("angular_velocity");
            reveal_strlit("net_torque");
            assert(concepts@.dom() =~= set![
                "velocity"@,
                "net_force"@,
                "mass"@,
                "angular_velocity"@,
                "net_torque"@,
            ]);
            assert("velocity"@.len() == 8);
            assert("net_force"@.len() == 9);
            assert("mass"@.len() == 4);
            assert("angular_velocity"@.len() == 16);
            assert("net_torque"@.len() == 10);
            assert(concepts@.len() == concepts@.dom().len());
            assert(concepts@.dom().len() == 5);
        }
        let ghost names = concepts@.dom();
        component.register_component(concept_manager, concepts);
        proof {
            let ids = component.view_concept_ids();
            assert(ids.to_set() =~= names);
        }
        component
    }

    /// Hands `data` to the concept manager as this component's concepts and
    /// remembers their names.
    pub fn register_component<V>(
        &mut self,
        concept_manager: &mut ConceptManager<V>,
        data: ConceptMap<V>,
    )
        requires
            old(concept_manager).wf(),
            data.wf(),
        ensures
            final(concept_manager).wf(),
            final(concept_manager)@ == old(concept_manager)@.insert(old(self).view_id(), data@),
            final(self).view_parent() == old(self).view_parent(),
            final(self).view_id() == old(self).view_id(),
            final(self).view_impulses() == old(self).view_impulses(),
            final(self).view_concept_ids().len() == data@.len(),
            forall|i: int|
                0 <= i < final(self).view_concept_ids().len() ==> data@.contains_key(
                    #[trigger] final(self).view_concept_ids()[i],
                ),
            forall|k: Seq<char>|
                #[trigger] data@.contains_key(k) ==> final(self).view_concept_ids().contains(k),
            final(self).view_concept_ids().no_duplicates(),
    {
        let names = concept_manager.register_component_concepts(self.id, data);
        self.concept_ids = names;
        proof {
            assert forall|k: Seq<char>| #[trigger] data@.contains_key(k) implies self.view_concept_ids().contains(k) by {
                let i = choose|i: int| 0 <= i < self.concept_ids@.len() && self.concept_ids@[i]@ == k;
                assert(self.view_concept_ids()[i] == k);
            }
            assert forall|a: int, b: int|
                0 <= a < self.view_concept_ids().len() && 0 <= b < self.view_concept_ids().len()
                    && a != b implies self.view_concept_ids()[a] != self.view_concept_ids()[b] by {
                if a < b {
                    assert(self.concept_ids@[a]@ != self.concept_ids@[b]@);
                } else {
                    assert(self.concept_ids@[b]@ != self.concept_ids@[a]@);
                }
            }
        }
    }

    /// Starts an impulse of `force` at time `now` that lasts `duration`.
    pub fn add_impulse(&mut self, force: F, now: u64, duration: u64)
        ensures
            final(self).view_impulses() == old(self).view_impulses().push(
                Impulse { force, initialized_instant: now, duration },
            ),
            final(self).view_parent() == old(self).view_parent(),
            final(self).view_id() == old(self).view_id(),
            final(self).view_concept_ids() == old(self).view_concept_ids(),
    {
        self.impulses.push(Impulse { force, initialized_instant: now, duration });
    }

    /// Keeps, in order, exactly the impulses whose time is up at `now`.
    pub fn remove_impulses(&mut self, now: u64)
        ensures
            final(self).view_impulses() == old(self).view_impulses().filter(
                |i: Impulse<F>| impulse_expired(i, now),
            ),
            forall|x: Impulse<F>|
                #[trigger] final(self).view_impulses().contains(x) <==> (old(
                    self,
                ).view_impulses().contains(x) && now >= x.initialized_instant + x.duration),
            final(self).view_parent() == old(self).view_parent(),
            final(self).view_id() == old(self).view_id(),
            final(self).view_concept_ids() == old(self).view_concept_ids(),
    {
        let ghost pred = |i: Impulse<F>| impulse_expired(i, now);
        let ghost orig = self.impulses@;
        let mut old_impulses: Vec<Impulse<F>> = Vec::new();
        std::mem::swap(&mut old_impulses, &mut self.impulses);
        let mut kept: Vec<Impulse<F>> = Vec::new();
        let mut taken: usize = 0;
        let mut rest = old_impulses;
        assert(rest@ == orig);
        let total = rest.len();
        while rest.len() > 0
            invariant
                orig.len() == total,
                pred == (|i: Impulse<F>| impulse_expired(i, now)),
                taken <= orig.len(),
                rest@ == orig.skip(taken as int),
                kept@ == orig.take(taken as int).filter(pred),
            decreases rest@.len(),
        {
            assert(rest@.len() == orig.len() - taken);
            let impulse = rest.remove(0);
            proof {
                assert(orig[taken as int] == impulse);
                assert(orig.take(taken + 1).drop_last() =~= orig.take(taken as int));
                reveal(Seq::filter);
                assert(orig.skip(taken + 1) =~= rest@);
            }
            let expiration = impulse.initialized_instant as u128 + impulse.duration as u128;
            if now as u128 >= expiration {
                kept.push(impulse);
            }
            taken = taken + 1;
        }
        assert(orig.take(orig.len() as int) =~= orig);
        proof {
            law_kept_impulses_are_the_expired_ones(orig, now);
            assert(kept@ == impulses_kept(orig, now));
        }
        self.impulses = kept;
    }

    /// The impulses, in the order they were added.
    pub fn impulses(&self) -> (r: &Vec<Impulse<F>>)
        ensures
            r@ == self.view_impulses(),
    {
        &self.impulses
    }

    /// The names of the component's concepts.
    pub fn concept_ids(&self) -> (r: &Vec<String>)
        ensures
            r@.map_values(|s: String| s@) == self.view_concept_ids(),
    {
        &self.concept_ids
    }

    pub fn id(&self) -> (r: ComponentId)
        ensures
            r == self.view_id(),
    {
        self.id
    }

    pub fn parent(&self) -> (r: EntityId)
        ensures
            r == self.view_parent(),
    {
        self.parent
    }
}

/// Removing impulses at time `now` keeps exactly the impulses whose full
/// duration has passed: those started at `initialized_instant` with
/// `now >= initialized_instant + duration`.
pub proof fn law_kept_impulses_are_the_expired_ones<F>(impulses: Seq<Impulse<F>>, now: u64)
    ensures
        forall|x: Impulse<F>|
            #[trigger] impulses_kept(impulses, now).contains(x) <==> (impulses.contains(x) && now
                >= x.initialized_instant + x.duration),
{
    let p = |i: Impulse<F>| impulse_expired(i, now);
    assert(impulses_kept(impulses, now) == impulses.filter(p));
    assert forall|x: Impulse<F>| #[trigger] impulses_kept(impulses, now).contains(x) <==> (
    impulses.contains(x) && now >= x.initialized_instant + x.duration) by {
        if impulses.contains(x) && now >= x.initialized_instant + x.duration {
            let k = choose|k: int| 0 <= k < impulses.len() && impulses[k] == x;
            impulses.lemma_filter_contains(p, k);
        }
        if impulses.filter(p).contains(x) {
            impulses.lemma_filter_contains_rev(p, x);
            let f = impulses.filter(p);
            let k = choose|k: int| 0 <= k < f.len() && f[k] == x;
            #[allow(deprecated)]
            impulses.filter_lemma(p);
            assert(p(f[k]));
        }
    }
}

/// Removing impulses twice at the same time is removing them once.
pub proof fn law_remove_impulses_idempotent<F>(impulses: Seq<Impulse<F>>, now: u64)
    ensures
        impulses.filter(|i: Impulse<F>| impulse_expired(i, now)).filter(
            |i: Impulse<F>| impulse_expired(i, now),
        ) == impulses.filter(|i: Impulse<F>| impulse_expired(i, now)),
    decreases impulses.len(),
{
    reveal(Seq::filter);
    if impulses.len() > 0 {
        law_remove_impulses_idempotent(impulses.drop_last(), now);
        let p = |i: Impulse<F>| impulse_expired(i, now);
        let f = impulses.filter(p);
        let g = impulses.drop_last().filter(p);
        if p(impulses.last()) {
            assert(f == g.push(impulses.last()));
            assert(f.drop_last() =~= g);
        }
    }
}

} // verus!
