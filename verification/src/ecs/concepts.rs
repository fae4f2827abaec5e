use std::collections::HashMap;
use vstd::prelude::*;

use super::component::ComponentId;

verus! {

broadcast use vstd::std_specs::hash::group_hash_axioms;

/// Why a concept lookup failed.
#[derive(Debug)]
pub enum ConceptManagerError {
    ComponentNotFound(ComponentId),
    ConceptNotFound(String),
    DowncastFailed,
}

/// The map that a list of named entries stands for: a later entry of a name wins.
pub open spec fn entries_to_map<V>(s: Seq<(String, V)>) -> Map<Seq<char>, V>
    decreases s.len(),
{
    if s.len() == 0 {
        Map::empty()
    } else {
        entries_to_map(s.drop_last()).insert(s.last().0@, s.last().1)
    }
}

/// No two entries carry the same name.
pub open spec fn names_unique<V>(s: Seq<(String, V)>) -> bool {
    forall|i: int, j: int| 0 <= i < j < s.len() ==> (#[trigger] s[i]).0@ != (#[trigger] s[j]).0@
}

proof fn lemma_entries_to_map<V>(s: Seq<(String, V)>)
    requires
        names_unique(s),
    ensures
        forall|i: int|
            0 <= i < s.len() ==> {
                &&& entries_to_map(s).contains_key((#[trigger] s[i]).0@)
                &&& entries_to_map(s)[s[i].0@] == s[i].1
            },
        forall|k: Seq<char>| #[trigger]
            entries_to_map(s).contains_key(k) ==> exists|i: int| 0 <= i < s.len() && s[i].0@ == k,
    decreases s.len(),
{
    if s.len() > 0 {
        let t = s.drop_last();
        assert(names_unique(t));
        lemma_entries_to_map(t);
        let last = s.len() - 1;
        assert forall|i: int| 0 <= i < s.len() implies {
            &&& entries_to_map(s).contains_key((#[trigger] s[i]).0@)
            &&& entries_to_map(s)[s[i].0@] == s[i].1
        } by {
            if i < last {
                assert(t[i] == s[i]);
                assert(entries_to_map(t).contains_key(t[i].0@));
                assert(s[i].0@ != s[last].0@);
            }
        }
        assert forall|k: Seq<char>| #[trigger]
            entries_to_map(s).contains_key(k) implies exists|i: int|
            0 <= i < s.len() && s[i].0@ == k by {
            if k != s[last].0@ {
                assert(entries_to_map(t).contains_key(k));
                let i = choose|i: int| 0 <= i < t.len() && t[i].0@ == k;
                assert(s[i] == t[i]);
            }
        }
    }
}

proof fn lemma_entries_update<V>(s: Seq<(String, V)>, i: int)
    requires
        names_unique(s),
        0 <= i < s.len(),
    ensures
        forall|e: (String, V)|
            e.0@ == s[i].0@ ==> {
                &&& names_unique(#[trigger] s.update(i, e))
                &&& entries_to_map(s.update(i, e)) == entries_to_map(s).insert(e.0@, e.1)
            },
{
    assert forall|e: (String, V)| e.0@ == s[i].0@ implies {
        &&& names_unique(#[trigger] s.update(i, e))
        &&& entries_to_map(s.update(i, e)) == entries_to_map(s).insert(e.0@, e.1)
    } by {
        let u = s.update(i, e);
        assert forall|a: int, b: int| 0 <= a < b < u.len() implies (#[trigger] u[a]).0@ != (
        #[trigger] u[b]).0@ by {
            assert(s[a].0@ != s[b].0@);
        }
        lemma_entries_to_map(s);
        lemma_entries_to_map(u);
        let key = e.0@;
        assert(entries_to_map(u) =~= entries_to_map(s).insert(key, e.1)) by {
            assert forall|k: Seq<char>| #[trigger] entries_to_map(u).contains_key(k) implies entries_to_map(s).insert(key, e.1).contains_key(k) by {
                let j = choose|j: int| 0 <= j < u.len() && u[j].0@ == k;
                if j != i {
                    assert(s[j] == u[j]);
                }
            }
            assert forall|k: Seq<char>| #[trigger] entries_to_map(s).insert(key, e.1).contains_key(k) implies entries_to_map(u).contains_key(k) && entries_to_map(u)[k] == entries_to_map(s).insert(key, e.1)[k] by {
                if k != key {
                    let j = choose|j: int| 0 <= j < s.len() && s[j].0@ == k;
                    assert(s[j] == u[j]);
                } else {
                    assert(u[i] == e);
                }
            }
        }
    }
}

/// The concepts of one component, each under its own name.
pub struct ConceptMap<V> {
    entries: Vec<(String, V)>,
}

impl<V> View for ConceptMap<V> {
    type V = Map<Seq<char>, V>;

    closed spec fn view(&self) -> Map<Seq<char>, V> {
        entries_to_map(self.entries@)
    }
}

impl<V> ConceptMap<V> {
    /// Every name occurs once.
    pub closed spec fn wf(&self) -> bool {
        names_unique(self.entries@)
    }

    proof fn lemma_view(&self)
        requires
            self.wf(),
        ensures
            forall|i: int|
                0 <= i < self.entries@.len() ==> {
                    &&& self@.contains_key((#[trigger] self.entries@[i]).0@)
                    &&& self@[self.entries@[i].0@] == self.entries@[i].1
                },
            forall|k: Seq<char>| #[trigger]
                self@.contains_key(k) ==> exists|i: int|
                    0 <= i < self.entries@.len() && self.entries@[i].0@ == k,
    {
        lemma_entries_to_map(self.entries@);
    }

    /// An empty map.
    pub fn new() -> (r: Self)
        ensures
            r.wf(),
            r@ == Map::<Seq<char>, V>::empty(),
    {
        ConceptMap { entries: Vec::new() }
    }

    /// The number of concepts.
    pub fn len(&self) -> (r: usize)
        requires
            self.wf(),
        ensures
            r == self@.len(),
    {
        proof {
            self.lemma_view();
            self.lemma_dom_len();
        }
        self.entries.len()
    }

    proof fn lemma_dom_len(&self)
        requires
            self.wf(),
        ensures
            self@.dom().finite(),
            self@.len() == self.entries@.len(),
    {
        lemma_entries_dom_len(self.entries@);
    }

    fn find(&self, name: &String) -> (r: Option<usize>)
        requires
            self.wf(),
        ensures
            match r {
                Some(i) => i < self.entries@.len() && self.entries@[i as int].0@ == name@,
                None => forall|i: int|
                    0 <= i < self.entries@.len() ==> (#[trigger] self.entries@[i]).0@ != name@,
            },
    {
        let mut i: usize = 0;
        while i < self.entries.len()
            invariant
                i <= self.entries@.len(),
                forall|j: int| 0 <= j < i ==> (#[trigger] self.entries@[j]).0@ != name@,
            decreases self.entries@.len() - i,
        {
            if self.entries[i].0 == *name {
                return Some(i);
            }
            i = i + 1;
        }
        None
    }

    /// Whether a concept of this name is present.
    pub fn contains(&self, name: &String) -> (r: bool)
        requires
            self.wf(),
        ensures
            r == self@.contains_key(name@),
    {
        proof {
            self.lemma_view();
        }
        self.find(name).is_some()
    }

    /// Sets the concept of this name, replacing a previous one.
    pub fn insert(&mut self, name: String, value: V)
        requires
            old(self).wf(),
        ensures
            final(self).wf(),
            final(self)@ == old(self)@.insert(name@, value),
    {
        proof {
            self.lemma_view();
        }
        let ghost old_map = self@;
        let ghost old_entries = self.entries@;
        match self.find(&name) {
            Some(i) => {
                proof {
                    lemma_entries_update(old_entries, i as int);
                }
                self.entries.set(i, (name, value));
            },
            None => {
                self.entries.push((name, value));
                proof {
                    assert(self.entries@.drop_last() =~= old_entries);
                    assert(names_unique(self.entries@)) by {
                        assert forall|a: int, b: int|
                            0 <= a < b < self.entries@.len() implies (
                            #[trigger] self.entries@[a]).0@ != (#[trigger] self.entries@[b]).0@ by {
                            if b < old_entries.len() {
                                assert(old_entries[a].0@ != old_entries[b].0@);
                            } else {
                                assert(old_entries[a] == self.entries@[a]);
                            }
                        }
                    }
                }
            },
        }
    }

    /// The concept of this name, if present.
    pub fn get(&self, name: &String) -> (r: Option<&V>)
        requires
            self.wf(),
        ensures
            match r {
                Some(v) => self@.contains_key(name@) && *v == self@[name@],
                None => !self@.contains_key(name@),
            },
    {
        proof {
            self.lemma_view();
        }
        match self.find(name) {
            Some(i) => Some(&self.entries[i].1),
            None => None,
        }
    }

    /// The concept of this name, to change in place, if present.
    pub fn get_mut(&mut self, name: &String) -> (r: Option<&mut V>)
        requires
            old(self).wf(),
        ensures
            final(self).wf(),
            match r {
                Some(v) => {
                    &&& old(self)@.contains_key(name@)
                    &&& *v == old(self)@[name@]
                    &&& final(self)@ == old(self)@.insert(name@, *final(v))
                },
                None => !old(self)@.contains_key(name@) && final(self)@ == old(self)@,
            },
    {
        proof {
            self.lemma_view();
        }
        match self.find(name) {
            Some(i) => {
                proof {
                    lemma_entries_update(self.entries@, i as int);
                }
                let entry = &mut self.entries[i];
                Some(&mut entry.1)
            },
            None => None,
        }
    }

    /// The names of all concepts, each once.
    pub fn names(&self) -> (r: Vec<String>)
        requires
            self.wf(),
        ensures
            r@.len() == self@.len(),
            forall|i: int| 0 <= i < r@.len() ==> self@.contains_key(#[trigger] r@[i]@),
            forall|k: Seq<char>|
                #[trigger] self@.contains_key(k) ==> exists|i: int| 0 <= i < r@.len() && r@[i]@ == k,
            forall|i: int, j: int| 0 <= i < j < r@.len() ==> (#[trigger] r@[i])@ != (#[trigger] r@[j])@,
    {
        proof {
            self.lemma_view();
            self.lemma_dom_len();
        }
        let mut out: Vec<String> = Vec::new();
        let mut i: usize = 0;
        while i < self.entries.len()
            invariant
                self.wf(),
                i <= self.entries@.len(),
                out@.len() == i,
                forall|j: int| 0 <= j < i ==> (#[trigger] out@[j])@ == self.entries@[j].0@,
            decreases self.entries@.len() - i,
        {
            out.push(self.entries[i].0.clone());
            i = i + 1;
        }
        proof {
            assert forall|k: Seq<char>| #[trigger] self@.contains_key(k) implies exists|i: int|
                0 <= i < out@.len() && out@[i]@ == k by {
                let j = choose|j: int| 0 <= j < self.entries@.len() && self.entries@[j].0@ == k;
                assert(out@[j]@ == k);
            }
            assert forall|a: int, b: int| 0 <= a < b < out@.len() implies (#[trigger] out@[a])@
                != (#[trigger] out@[b])@ by {
                assert(self.entries@[a].0@ != self.entries@[b].0@);
            }
        }
        out
    }
}

proof fn lemma_entries_dom_len<V>(s: Seq<(String, V)>)
    requires
        names_unique(s),
    ensures
        entries_to_map(s).dom().finite(),
        entries_to_map(s).len() == s.len(),
    decreases s.len(),
{
    if s.len() > 0 {
        let t = s.drop_last();
        assert(names_unique(t));
        lemma_entries_dom_len(t);
        lemma_entries_to_map(t);
        if entries_to_map(t).contains_key(s.last().0@) {
            let i = choose|i: int| 0 <= i < t.len() && t[i].0@ == s.last().0@;
            assert(s[i] == t[i]);
            assert(false);
        }
    }
}

} // verus!

verus! {

/// `HashMap::get_mut` on a map keyed by component: a mutable borrow of the
/// value stored under `key`, or `None` where the key is absent. Claims what
/// std documents: the borrow starts at the stored value, whatever is written
/// through it is what the map holds afterwards, and no other entry changes.
#[verifier::external_body]
fn component_entry_mut<'a, X>(map: &'a mut HashMap<ComponentId, X>, key: &ComponentId) -> (r:
    Option<&'a mut X>)
    ensures
        match r {
            Some(v) => {
                &&& old(map)@.contains_key(*key)
                &&& *v == old(map)@[*key]
                &&& final(map)@ == old(map)@.insert(*key, *final(v))
            },
            None => !old(map)@.contains_key(*key) && final(map)@ == old(map)@,
        },
{
    map.get_mut(key)
}

/// Every component's named concepts, the data that components share.
pub struct ConceptManager<V> {
    concepts: HashMap<ComponentId, ConceptMap<V>>,
}

impl<V> View for ConceptManager<V> {
    type V = Map<ComponentId, Map<Seq<char>, V>>;

    closed spec fn view(&self) -> Map<ComponentId, Map<Seq<char>, V>> {
        self.concepts@.map_values(|m: ConceptMap<V>| m@)
    }
}

impl<V> Default for ConceptManager<V> {
    /// A manager that knows no component.
    fn default() -> (r: Self)
        ensures
            r.wf(),
            r@ == Map::<ComponentId, Map<Seq<char>, V>>::empty(),
    {
        let r = ConceptManager { concepts: HashMap::new() };
        assert(r@ =~= Map::<ComponentId, Map<Seq<char>, V>>::empty());
        r
    }
}

impl<V> ConceptManager<V> {
    /// Every per-component map keeps its names unique.
    pub closed spec fn wf(&self) -> bool {
        forall|c: ComponentId| #[trigger] self.concepts@.contains_key(c) ==> self.concepts@[c].wf()
    }

    /// Stores `data` as the concept `name` of `component` and gives the name back.
    pub fn register_concept(&mut self, component: ComponentId, name: String, data: V) -> (r:
        String)
        requires
            old(self).wf(),
        ensures
            final(self).wf(),
            r@ == name@,
            final(self)@ == concept_registered(old(self)@, component, name@, data),
    {
        let ghost old_concepts = self.concepts@;
        let key = name.clone();
        match component_entry_mut(&mut self.concepts, &component) {
            Some(concepts_map) => {
                concepts_map.insert(key, data);
            },
            None => {
                let mut map = ConceptMap::new();
                map.insert(key, data);
                self.concepts.insert(component, map);
            },
        }
        assert(self@ =~= old(self)@.insert(
            component,
            (if old(self)@.contains_key(component) {
                old(self)@[component]
            } else {
                Map::empty()
            }).insert(name@, data),
        ));
        name
    }

    /// The concept `concept_name` of `component`.
    pub fn get_concept(&self, component: ComponentId, concept_name: String) -> (r: Result<
        &V,
        ConceptManagerError,
    >)
        requires
            self.wf(),
        ensures
            match r {
                Ok(v) => {
                    &&& self@.contains_key(component)
                    &&& self@[component].contains_key(concept_name@)
                    &&& *v == self@[component][concept_name@]
                },
                Err(ConceptManagerError::ComponentNotFound(c)) => {
                    &&& c == component
                    &&& !self@.contains_key(component)
                },
                Err(ConceptManagerError::ConceptNotFound(n)) => {
                    &&& n@ == concept_name@
                    &&& self@.contains_key(component)
                    &&& !self@[component].contains_key(concept_name@)
                },
                Err(ConceptManagerError::DowncastFailed) => false,
            },
    {
        match self.concepts.get(&component) {
            Some(concepts_map) => match concepts_map.get(&concept_name) {
                Some(concept) => Ok(concept),
                None => Err(ConceptManagerError::ConceptNotFound(concept_name)),
            },
            None => Err(ConceptManagerError::ComponentNotFound(component)),
        }
    }

    /// The concept `concept_name` of `component`, to change in place.
    pub fn get_concept_mut(&mut self, component: ComponentId, concept_name: String) -> (r: Result<
        &mut V,
        ConceptManagerError,
    >)
        requires
            old(self).wf(),
        ensures
            final(self).wf(),
            match r {
                Ok(v) => {
                    &&& old(self)@.contains_key(component)
                    &&& old(self)@[component].contains_key(concept_name@)
                    &&& *v == old(self)@[component][concept_name@]
                    &&& final(self)@ == old(self)@.insert(
                        component,
                        old(self)@[component].insert(concept_name@, *final(v)),
                    )
                },
                Err(ConceptManagerError::ComponentNotFound(c)) => {
                    &&& c == component
                    &&& !old(self)@.contains_key(component)
                    &&& final(self)@ == old(self)@
                },
                Err(ConceptManagerError::ConceptNotFound(n)) => {
                    &&& n@ == concept_name@
                    &&& old(self)@.contains_key(component)
                    &&& !old(self)@[component].contains_key(concept_name@)
                    &&& final(self)@ == old(self)@
                },
                Err(ConceptManagerError::DowncastFailed) => false,
            },
    {
        match component_entry_mut(&mut self.concepts, &component) {
            Some(concepts_map) => match concepts_map.get_mut(&concept_name) {
                Some(concept) => Ok(concept),
                None => Err(ConceptManagerError::ConceptNotFound(concept_name)),
            },
            None => Err(ConceptManagerError::ComponentNotFound(component)),
        }
    }

    /// Replaces all concepts of `component` with `concepts` and returns their names.
    pub fn register_component_concepts(
        &mut self,
        component: ComponentId,
        concepts: ConceptMap<V>,
    ) -> (r: Vec<String>)
        requires
            old(self).wf(),
            concepts.wf(),
        ensures
            final(self).wf(),
            final(self)@ == old(self)@.insert(component, concepts@),
            r@.len() == concepts@.len(),
            forall|i: int| 0 <= i < r@.len() ==> concepts@.contains_key(#[trigger] r@[i]@),
            forall|k: Seq<char>|
                #[trigger] concepts@.contains_key(k) ==> exists|i: int|
                    0 <= i < r@.len() && r@[i]@ == k,
            forall|i: int, j: int| 0 <= i < j < r@.len() ==> (#[trigger] r@[i])@ != (#[trigger] r@[j])@,
    {
        let names = concepts.names();
        let ghost cv = concepts@;
        self.concepts.insert(component, concepts);
        assert(self@ =~= old(self)@.insert(component, cv));
        names
    }

    /// Moves the concepts of `old_id` to `new_id`; nothing changes where `old_id` has none.
    pub fn modify_key(&mut self, old_id: ComponentId, new_id: ComponentId)
        requires
            old(self).wf(),
        ensures
            final(self).wf(),
            final(self)@ == concepts_moved(old(self)@, old_id, new_id),
    {
        if let Some(concepts) = self.concepts.remove(&old_id) {
            let ghost cv = concepts@;
            self.concepts.insert(new_id, concepts);
            assert(self@ =~= old(self)@.remove(old_id).insert(new_id, cv));
        } else {
            assert(self@ =~= old(self)@);
        }
    }
}

/// The concepts after `register_concept(component, name, data)`.
pub open spec fn concept_registered<V>(
    m: Map<ComponentId, Map<Seq<char>, V>>,
    component: ComponentId,
    name: Seq<char>,
    data: V,
) -> Map<ComponentId, Map<Seq<char>, V>> {
    m.insert(
        component,
        (if m.contains_key(component) {
            m[component]
        } else {
            Map::empty()
        }).insert(name, data),
    )
}

/// The concepts after `modify_key(old_id, new_id)`.
pub open spec fn concepts_moved<V>(
    m: Map<ComponentId, Map<Seq<char>, V>>,
    old_id: ComponentId,
    new_id: ComponentId,
) -> Map<ComponentId, Map<Seq<char>, V>> {
    if m.contains_key(old_id) {
        m.remove(old_id).insert(new_id, m[old_id])
    } else {
        m
    }
}

/// A registered concept reads back as what was registered, and every other
/// concept, of this component or of another, reads as before.
pub proof fn law_register_then_get<V>(
    m: Map<ComponentId, Map<Seq<char>, V>>,
    component: ComponentId,
    name: Seq<char>,
    data: V,
)
    ensures
        concept_registered(m, component, name, data).contains_key(component),
        concept_registered(m, component, name, data)[component].contains_key(name),
        concept_registered(m, component, name, data)[component][name] == data,
        forall|other: Seq<char>|
            other != name && m.contains_key(component) ==> (#[trigger] concept_registered(
                m,
                component,
                name,
                data,
            )[component].contains_key(other) <==> m[component].contains_key(other)) && (
            m[component].contains_key(other) ==> concept_registered(m, component, name, data)[component][other]
                == m[component][other]),
        forall|c: ComponentId|
            c != component ==> (#[trigger] concept_registered(m, component, name, data).contains_key(
                c,
            ) <==> m.contains_key(c)) && (m.contains_key(c) ==> concept_registered(
                m,
                component,
                name,
                data,
            )[c] == m[c]),
{
}

/// Moving the concepts of a component to an unused identifier and back
/// gives the concepts one started with.
pub proof fn law_move_and_back<V>(
    m: Map<ComponentId, Map<Seq<char>, V>>,
    old_id: ComponentId,
    new_id: ComponentId,
)
    requires
        m.contains_key(old_id),
        !m.contains_key(new_id) || new_id == old_id,
    ensures
        concepts_moved(concepts_moved(m, old_id, new_id), new_id, old_id) == m,
{
    assert(concepts_moved(concepts_moved(m, old_id, new_id), new_id, old_id) =~= m);
}

/// Moving from an identifier that holds nothing changes nothing.
pub proof fn law_move_absent<V>(
    m: Map<ComponentId, Map<Seq<char>, V>>,
    old_id: ComponentId,
    new_id: ComponentId,
)
    requires
        !m.contains_key(old_id),
    ensures
        concepts_moved(m, old_id, new_id) == m,
{
}

/// Moving the concepts of `old_id` puts exactly them under `new_id`, leaves
/// nothing under `old_id` (unless it is `new_id`), and keeps every other
/// component's concepts.
pub proof fn law_move_relocates<V>(
    m: Map<ComponentId, Map<Seq<char>, V>>,
    old_id: ComponentId,
    new_id: ComponentId,
)
    requires
        m.contains_key(old_id),
    ensures
        concepts_moved(m, old_id, new_id).contains_key(new_id),
        concepts_moved(m, old_id, new_id)[new_id] == m[old_id],
        old_id != new_id ==> !concepts_moved(m, old_id, new_id).contains_key(old_id),
        forall|c: ComponentId|
            c != old_id && c != new_id ==> (#[trigger] concepts_moved(m, old_id, new_id).contains_key(c)
                <==> m.contains_key(c)) && (m.contains_key(c) ==> concepts_moved(m, old_id, new_id)[c]
                == m[c]),
{
}

} // verus!
