use std::collections::HashMap;
use vstd::prelude::*;
use vstd::multiset::Multiset;

use super::component::{
    component_state, component_states, ComponentDetails, ComponentId, ComponentState,
    ComponentSystem,
};
use super::entity::{Entity, EntityId, EntityView};
use super::material::MaterialId;
use super::pipeline::{pipeline_key, same_pipeline, PipelineId};

verus! {

broadcast use vstd::std_specs::hash::group_hash_axioms;

/// Components come in order of rendering: lower order first.
pub open spec fn sorted_by_rendering_order(s: Seq<ComponentState>) -> bool {
    forall|i: int, j: int|
        0 <= i < j < s.len() ==> (#[trigger] s[i]).rendering_order <= (#[trigger] s[j]).rendering_order
}

/// The first position whose component renders no earlier than `order`; the end if none does.
pub open spec fn insertion_index(s: Seq<ComponentState>, order: i32) -> int
    decreases s.len(),
{
    if s.len() == 0 {
        0
    } else if s[0].rendering_order >= order {
        0
    } else {
        1 + insertion_index(s.drop_first(), order)
    }
}

/// Makes `c` a child of `parent` and inserts it at its place by rendering
/// order: before the first component that renders no earlier.
pub open spec fn insert_component(
    s: Seq<ComponentState>,
    c: ComponentState,
    parent: EntityId,
) -> Seq<ComponentState> {
    s.insert(insertion_index(s, c.rendering_order), ComponentState { parent, ..c })
}

/// Inserts each of `cs` in turn, as `insert_component` does.
pub open spec fn insert_components(
    s: Seq<ComponentState>,
    cs: Seq<ComponentState>,
    parent: EntityId,
) -> Seq<ComponentState>
    decreases cs.len(),
{
    if cs.len() == 0 {
        s
    } else {
        insert_components(insert_component(s, cs[0], parent), cs.drop_first(), parent)
    }
}

/// The positions, in order, of the first `n` components whose parent's active material is `m`.
pub open spec fn indices_with_material(
    s: Seq<ComponentState>,
    entities: Map<EntityId, EntityView>,
    m: MaterialId,
    n: int,
) -> Seq<usize>
    decreases n,
{
    if n <= 0 {
        Seq::empty()
    } else {
        let prev = indices_with_material(s, entities, m, n - 1);
        if entities[s[n - 1].parent].active_material == m {
            prev.push((n - 1) as usize)
        } else {
            prev
        }
    }
}

/// Whether a component takes part in an update: it is enabled, and its
/// parent entity exists and is enabled.
pub open spec fn takes_update(c: ComponentState, entities: Map<EntityId, EntityView>) -> bool {
    c.enabled && entities.contains_key(c.parent) && entities[c.parent].is_enabled
}

/// The positions, in order, of those of the first `n` components that take part in an update.
pub open spec fn indices_to_update(
    s: Seq<ComponentState>,
    entities: Map<EntityId, EntityView>,
    n: int,
) -> Seq<usize>
    decreases n,
{
    if n <= 0 {
        Seq::empty()
    } else {
        let prev = indices_to_update(s, entities, n - 1);
        if takes_update(s[n - 1], entities) {
            prev.push((n - 1) as usize)
        } else {
            prev
        }
    }
}

/// The material list registered for a pipeline, if one is.
pub open spec fn material_set_of(
    sets: Seq<((Seq<char>, Seq<char>), Seq<MaterialId>)>,
    key: (Seq<char>, Seq<char>),
) -> Option<Seq<MaterialId>>
    decreases sets.len(),
{
    if sets.len() == 0 {
        None
    } else if sets[0].0 == key {
        Some(sets[0].1)
    } else {
        material_set_of(sets.drop_first(), key)
    }
}

/// Appends `id` to the material list of `key`, or starts that list with `id`
/// where there is none; the other lists stay.
pub open spec fn add_to_material_set(
    sets: Seq<((Seq<char>, Seq<char>), Seq<MaterialId>)>,
    key: (Seq<char>, Seq<char>),
    id: MaterialId,
) -> Seq<((Seq<char>, Seq<char>), Seq<MaterialId>)> {
    if material_set_of(sets, key) is Some {
        sets.map_values(
            |e: ((Seq<char>, Seq<char>), Seq<MaterialId>)|
                if e.0 == key {
                    (e.0, e.1.push(id))
                } else {
                    e
                },
        )
    } else {
        sets.push((key, seq![id]))
    }
}

/// What a scene holds, as plain values.
pub struct SceneView<W> {
    pub components: Seq<ComponentState>,
    pub entities: Map<EntityId, EntityView>,
    pub materials: Seq<MaterialId>,
    pub pipelines: Seq<(Seq<char>, Seq<char>)>,
    pub material_sets: Seq<((Seq<char>, Seq<char>), Seq<MaterialId>)>,
    pub total_entities_created: u32,
    pub workloads: Map<ComponentId, W>,
}

/// What a new material brought about.
#[derive(Debug, PartialEq, Eq, Structural, Clone, Copy)]
pub struct MaterialRegistration {
    pub id: MaterialId,
    /// No pipeline for its shaders existed before, so one must be built.
    pub new_pipeline: bool,
}

/// Everything that makes up one game world: entities, their components,
/// materials and the pipelines that draw them.
pub struct Scene<C, W> {
    components: Vec<C>,
    entities: HashMap<EntityId, Entity>,
    materials: Vec<MaterialId>,
    pipelines: Vec<PipelineId>,
    pipeline_material_sets: Vec<(PipelineId, Vec<MaterialId>)>,
    total_entities_created: u32,
    workloads: HashMap<ComponentId, W>,
}

impl<C: ComponentSystem, W> View for Scene<C, W> {
    type V = SceneView<W>;

    closed spec fn view(&self) -> SceneView<W> {
        SceneView {
            components: component_states(self.components@),
            entities: self.entities@.map_values(|e: Entity| e@),
            materials: self.materials@,
            pipelines: self.pipelines@.map_values(|p: PipelineId| pipeline_key(p)),
            material_sets: self.pipeline_material_sets@.map_values(
                |e: (PipelineId, Vec<MaterialId>)| (pipeline_key(e.0), e.1@),
            ),
            total_entities_created: self.total_entities_created,
            workloads: self.workloads@,
        }
    }
}

/// The scene's invariant over its plain values.
pub open spec fn scene_wf<W>(v: SceneView<W>) -> bool {
    &&& sorted_by_rendering_order(v.components)
    &&& forall|k: EntityId|
        #[trigger] v.entities.contains_key(k) <==> 1 <= k <= v.total_entities_created
    &&& forall|k: EntityId| #[trigger] v.entities.contains_key(k) ==> v.entities[k].id == k
    &&& v.materials.len() <= u32::MAX
    &&& forall|i: int| 0 <= i < v.materials.len() ==> #[trigger] v.materials[i] == i
    &&& forall|i: int, j: int|
        0 <= i < j < v.pipelines.len() ==> #[trigger] v.pipelines[i] != #[trigger] v.pipelines[j]
    &&& forall|i: int, j: int|
        0 <= i < j < v.material_sets.len() ==> (#[trigger] v.material_sets[i]).0 != (
        #[trigger] v.material_sets[j]).0
}

proof fn lemma_insertion_index(s: Seq<ComponentState>, order: i32, i: int)
    requires
        0 <= i <= s.len(),
        forall|j: int| 0 <= j < i ==> (#[trigger] s[j]).rendering_order < order,
        i == s.len() || s[i].rendering_order >= order,
    ensures
        insertion_index(s, order) == i,
    decreases i,
{
    if i > 0 {
        let t = s.drop_first();
        assert forall|j: int| 0 <= j < i - 1 implies (#[trigger] t[j]).rendering_order < order by {
            assert(t[j] == s[j + 1]);
        }
        if i - 1 < t.len() {
            assert(t[i - 1] == s[i]);
        }
        lemma_insertion_index(t, order, i - 1);
    }
}

proof fn lemma_insertion_index_bounds(s: Seq<ComponentState>, order: i32)
    ensures
        0 <= insertion_index(s, order) <= s.len(),
        forall|j: int|
            0 <= j < insertion_index(s, order) ==> (#[trigger] s[j]).rendering_order < order,
        insertion_index(s, order) < s.len() ==> s[insertion_index(s, order)].rendering_order
            >= order,
    decreases s.len(),
{
    if s.len() > 0 && s[0].rendering_order < order {
        let t = s.drop_first();
        lemma_insertion_index_bounds(t, order);
        assert forall|j: int| 0 <= j < insertion_index(s, order) implies (
        #[trigger] s[j]).rendering_order < order by {
            if j > 0 {
                assert(s[j] == t[j - 1]);
            }
        }
        if insertion_index(s, order) < s.len() {
            assert(s[insertion_index(s, order)] == t[insertion_index(t, order)]);
        }
    }
}

proof fn lemma_insert_component_sorted(s: Seq<ComponentState>, c: ComponentState, parent: EntityId)
    requires
        sorted_by_rendering_order(s),
    ensures
        sorted_by_rendering_order(insert_component(s, c, parent)),
        insert_component(s, c, parent).len() == s.len() + 1,
{
    lemma_insertion_index_bounds(s, c.rendering_order);
    let k = insertion_index(s, c.rendering_order);
    let t = insert_component(s, c, parent);
    assert forall|i: int, j: int| 0 <= i < j < t.len() implies (#[trigger] t[i]).rendering_order
        <= (#[trigger] t[j]).rendering_order by {
        if j < k {
        } else if j == k {
            assert(t[i] == s[i]);
        } else if i < k {
            assert(t[i] == s[i]);
            assert(t[j] == s[j - 1]);
            assert(s[k].rendering_order >= c.rendering_order);
        } else if i == k {
            assert(t[j] == s[j - 1]);
            assert(s[k].rendering_order >= c.rendering_order);
        } else {
            assert(t[i] == s[i - 1]);
            assert(t[j] == s[j - 1]);
        }
    }
}

proof fn lemma_insert_components_sorted(
    s: Seq<ComponentState>,
    cs: Seq<ComponentState>,
    parent: EntityId,
)
    requires
        sorted_by_rendering_order(s),
    ensures
        sorted_by_rendering_order(insert_components(s, cs, parent)),
        insert_components(s, cs, parent).len() == s.len() + cs.len(),
    decreases cs.len(),
{
    if cs.len() > 0 {
        lemma_insert_component_sorted(s, cs[0], parent);
        lemma_insert_components_sorted(insert_component(s, cs[0], parent), cs.drop_first(), parent);
    }
}

proof fn lemma_material_set_of(
    sets: Seq<((Seq<char>, Seq<char>), Seq<MaterialId>)>,
    key: (Seq<char>, Seq<char>),
)
    ensures
        forall|i: int|
            0 <= i < sets.len() && (#[trigger] sets[i]).0 == key && (forall|j: int|
                0 <= j < i ==> (#[trigger] sets[j]).0 != key) ==> material_set_of(sets, key)
                == Some(sets[i].1),
        (forall|i: int| 0 <= i < sets.len() ==> (#[trigger] sets[i]).0 != key) ==> material_set_of(
            sets,
            key,
        ) is None,
    decreases sets.len(),
{
    if sets.len() > 0 {
        let t = sets.drop_first();
        lemma_material_set_of(t, key);
        assert forall|i: int|
            0 <= i < sets.len() && (#[trigger] sets[i]).0 == key && (forall|j: int|
                0 <= j < i ==> (#[trigger] sets[j]).0 != key) implies material_set_of(sets, key)
            == Some(sets[i].1) by {
            if i > 0 {
                assert(sets[0].0 != key);
                assert(t[i - 1] == sets[i]);
                assert forall|j: int| 0 <= j < i - 1 implies (#[trigger] t[j]).0 != key by {
                    assert(t[j] == sets[j + 1]);
                }
            }
        }
        if forall|i: int| 0 <= i < sets.len() ==> (#[trigger] sets[i]).0 != key {
            assert(sets[0].0 != key);
            assert forall|i: int| 0 <= i < t.len() implies (#[trigger] t[i]).0 != key by {
                assert(t[i] == sets[i + 1]);
            }
        }
    }
}

proof fn lemma_material_set_of_same_keys(
    a: Seq<((Seq<char>, Seq<char>), Seq<MaterialId>)>,
    b: Seq<((Seq<char>, Seq<char>), Seq<MaterialId>)>,
    k: (Seq<char>, Seq<char>),
    g: spec_fn(Seq<MaterialId>) -> Seq<MaterialId>,
)
    requires
        a.len() == b.len(),
        forall|i: int| 0 <= i < a.len() ==> (#[trigger] a[i]).0 == b[i].0,
        forall|i: int| 0 <= i < a.len() && (#[trigger] a[i]).0 == k ==> b[i].1 == g(a[i].1),
    ensures
        material_set_of(b, k) == match material_set_of(a, k) {
            Some(l) => Some(g(l)),
            None => None,
        },
    decreases a.len(),
{
    if a.len() > 0 {
        let a1 = a.drop_first();
        let b1 = b.drop_first();
        assert forall|i: int| 0 <= i < a1.len() implies (#[trigger] a1[i]).0 == b1[i].0 by {
            assert(a1[i] == a[i + 1]);
            assert(b1[i] == b[i + 1]);
        }
        assert forall|i: int| 0 <= i < a1.len() && (#[trigger] a1[i]).0 == k implies b1[i].1 == g(
            a1[i].1,
        ) by {
            assert(a1[i] == a[i + 1]);
            assert(b1[i] == b[i + 1]);
        }
        assert(a[0].0 == b[0].0);
        lemma_material_set_of_same_keys(a1, b1, k, g);
    }
}

proof fn lemma_material_set_of_push(
    sets: Seq<((Seq<char>, Seq<char>), Seq<MaterialId>)>,
    e: ((Seq<char>, Seq<char>), Seq<MaterialId>),
    k: (Seq<char>, Seq<char>),
)
    ensures
        material_set_of(sets.push(e), k) == match material_set_of(sets, k) {
            Some(l) => Some(l),
            None => if e.0 == k {
                Some(e.1)
            } else {
                None
            },
        },
    decreases sets.len(),
{
    if sets.len() > 0 {
        assert(sets.push(e).drop_first() =~= sets.drop_first().push(e));
        lemma_material_set_of_push(sets.drop_first(), e, k);
    } else {
        assert(sets.push(e).drop_first() =~= sets);
    }
}

/// Registering material `id` for the pipeline `key` appends it to that
/// pipeline's list, starting the list where there was none, and leaves the
/// list of every other pipeline, even one that shares a shader, as it was.
pub proof fn law_material_goes_only_to_its_pipeline(
    sets: Seq<((Seq<char>, Seq<char>), Seq<MaterialId>)>,
    key: (Seq<char>, Seq<char>),
    id: MaterialId,
    other: (Seq<char>, Seq<char>),
)
    ensures
        material_set_of(add_to_material_set(sets, key, id), key) == Some(
            match material_set_of(sets, key) {
                Some(ids) => ids.push(id),
                None => seq![id],
            },
        ),
        other != key ==> material_set_of(add_to_material_set(sets, key, id), other)
            == material_set_of(sets, other),
{
    let new_sets = add_to_material_set(sets, key, id);
    if material_set_of(sets, key) is Some {
        let push_id = |l: Seq<MaterialId>| l.push(id);
        let same = |l: Seq<MaterialId>| l;
        assert forall|i: int| 0 <= i < sets.len() implies (#[trigger] sets[i]).0 == new_sets[i].0 by {}
        assert forall|i: int| 0 <= i < sets.len() && (#[trigger] sets[i]).0 == key implies new_sets[i].1
            == push_id(sets[i].1) by {}
        lemma_material_set_of_same_keys(sets, new_sets, key, push_id);
        if other != key {
            assert forall|i: int| 0 <= i < sets.len() && (#[trigger] sets[i]).0 == other implies new_sets[i].1
                == same(sets[i].1) by {}
            lemma_material_set_of_same_keys(sets, new_sets, other, same);
        }
    } else {
        lemma_material_set_of_push(sets, (key, seq![id]), key);
        lemma_material_set_of_push(sets, (key, seq![id]), other);
    }
}

fn vec_contains_id(v: &Vec<MaterialId>, x: MaterialId) -> (r: bool)
    ensures
        r == v@.contains(x),
{
    let mut i: usize = 0;
    while i < v.len()
        invariant
            i <= v@.len(),
            forall|j: int| 0 <= j < i ==> v@[j] != x,
        decreases v@.len() - i,
    {
        if v[i] == x {
            return true;
        }
        i = i + 1;
    }
    false
}

impl<C: ComponentSystem, W> Scene<C, W> {
    /// The scene's invariant.
    pub open spec fn wf(&self) -> bool {
        scene_wf(self@)
    }

    /// An empty scene.
    pub fn new() -> (r: Self)
        ensures
            r.wf(),
            r@.components == Seq::<ComponentState>::empty(),
            r@.entities == Map::<EntityId, EntityView>::empty(),
            r@.materials == Seq::<MaterialId>::empty(),
            r@.pipelines == Seq::<(Seq<char>, Seq<char>)>::empty(),
            r@.material_sets == Seq::<((Seq<char>, Seq<char>), Seq<MaterialId>)>::empty(),
            r@.total_entities_created == 0,
            r@.workloads == Map::<ComponentId, W>::empty(),
    {
        let r = Scene {
            components: Vec::new(),
            entities: HashMap::new(),
            materials: Vec::new(),
            pipelines: Vec::new(),
            pipeline_material_sets: Vec::new(),
            total_entities_created: 0,
            workloads: HashMap::new(),
        };
        assert(r@.components =~= Seq::<ComponentState>::empty());
        assert(r@.entities =~= Map::<EntityId, EntityView>::empty());
        assert(r@.pipelines =~= Seq::<(Seq<char>, Seq<char>)>::empty());
        assert(r@.material_sets =~= Seq::<((Seq<char>, Seq<char>), Seq<MaterialId>)>::empty());
        r
    }

    /// Where a component of rendering order `order` goes: before the first
    /// component that renders no earlier.
    fn insertion_position(&self, order: i32) -> (r: usize)
        ensures
            r == insertion_index(self@.components, order),
            r <= self@.components.len(),
    {
        proof {
            lemma_insertion_index_bounds(self@.components, order);
        }
        let ghost states = self@.components;
        let mut i: usize = 0;
        while i < self.components.len() && self.components[i].rendering_order() < order
            invariant
                states == component_states(self.components@),
                i <= self.components@.len(),
                forall|j: int| 0 <= j < i ==> (#[trigger] states[j]).rendering_order < order,
            decreases self.components@.len() - i,
        {
            i = i + 1;
        }
        proof {
            lemma_insertion_index(states, order, i as int);
        }
        i
    }

    /// Creates an entity under `parent` (0 where there is none) with the next
    /// identifier, and hands it `components`: each is made a child of the new
    /// entity and goes in before the first component that renders no earlier.
    pub fn create_entity(
        &mut self,
        parent: Option<EntityId>,
        components: Vec<C>,
        material: MaterialId,
        is_enabled: bool,
    ) -> (r: EntityId)
        requires
            old(self).wf(),
            old(self)@.total_entities_created < u32::MAX,
        ensures
            final(self).wf(),
            r == old(self)@.total_entities_created + 1,
            final(self)@ == (SceneView {
                components: insert_components(
                    old(self)@.components,
                    component_states(components@),
                    r,
                ),
                entities: old(self)@.entities.insert(
                    r,
                    EntityView {
                        id: r,
                        children_ids: Seq::empty(),
                        parent_id: match parent {
                            Some(p) => p,
                            None => 0,
                        },
                        is_enabled,
                        materials: Seq::empty(),
                        active_material: material,
                    },
                ),
                total_entities_created: r,
                ..old(self)@
            }),
    {
        let parent_id = match parent {
            Some(p) => p,
            None => 0,
        };
        let entity = Entity::new(
            self.total_entities_created + 1,
            Vec::new(),
            parent_id,
            is_enabled,
            material,
        );
        let id = entity.id();
        self.entities.insert(id, entity);
        self.total_entities_created = self.total_entities_created + 1;
        let ghost target = insert_components(
            old(self)@.components,
            component_states(components@),
            id,
        );
        let mut remaining = components;
        proof {
            lemma_insert_components_sorted(
                old(self)@.components,
                component_states(remaining@),
                id,
            );
        }
        while remaining.len() > 0
            invariant
                sorted_by_rendering_order(self@.components),
                target == insert_components(self@.components, component_states(remaining@), id),
                self@.entities == old(self)@.entities.insert(
                    id,
                    EntityView {
                        id,
                        children_ids: Seq::empty(),
                        parent_id,
                        is_enabled,
                        materials: Seq::empty(),
                        active_material: material,
                    },
                ),
                self@.materials == old(self)@.materials,
                self@.pipelines == old(self)@.pipelines,
                self@.material_sets == old(self)@.material_sets,
                self@.workloads == old(self)@.workloads,
                self@.total_entities_created == id,
            decreases remaining@.len(),
        {
            let ghost before = self@.components;
            let ghost rest = remaining@;
            let mut component = remaining.remove(0);
            let ghost c = component_state(component);
            component.set_parent_entity(id);
            let order = component.rendering_order();
            let insert_index = self.insertion_position(order);
            self.components.insert(insert_index, component);
            proof {
                assert(component_state(component) == ComponentState { parent: id, ..c });
                assert(component_states(self.components@) =~= before.insert(
                    insert_index as int,
                    ComponentState { parent: id, ..c },
                ));
                assert(component_states(rest)[0] == c);
                assert(component_states(rest).drop_first() =~= component_states(remaining@));
                assert(self@.components =~= insert_component(before, c, id));
                lemma_insert_component_sorted(before, c, id);
            }
        }
        proof {
            assert(self@.entities =~= old(self)@.entities.insert(
                id,
                EntityView {
                    id,
                    children_ids: Seq::empty(),
                    parent_id,
                    is_enabled,
                    materials: Seq::empty(),
                    active_material: material,
                },
            ));
            assert forall|k: EntityId| #[trigger] self@.entities.contains_key(k) implies self@.entities[k].id == k by {
                if k != id {
                    assert(old(self)@.entities.contains_key(k));
                }
            }
        }
        id
    }

    /// For every material, the positions of the components whose parent
    /// entity shows that material, in rendering order.
    pub fn get_components_per_material(&self) -> (r: HashMap<MaterialId, Vec<usize>>)
        requires
            self.wf(),
            forall|i: int|
                0 <= i < self@.components.len() ==> {
                    &&& self@.entities.contains_key((#[trigger] self@.components[i]).parent)
                    &&& self@.entities[self@.components[i].parent].active_material
                        < self@.materials.len()
                },
        ensures
            forall|m: MaterialId| #[trigger] r@.contains_key(m) <==> m < self@.materials.len(),
            forall|m: MaterialId|
                #[trigger] r@.contains_key(m) ==> r@[m]@ == indices_with_material(
                    self@.components,
                    self@.entities,
                    m,
                    self@.components.len() as int,
                ),
    {
        let ghost states = self@.components;
        let ghost ents = self@.entities;
        let n = self.materials.len();
        let mut buckets: Vec<Vec<usize>> = Vec::new();
        while buckets.len() < n
            invariant
                n == self@.materials.len(),
                buckets@.len() <= n,
                forall|m: int| 0 <= m < buckets@.len() ==> (#[trigger] buckets@[m])@ == Seq::<usize>::empty(),
            decreases n - buckets@.len(),
        {
            buckets.push(Vec::new());
        }
        let mut i: usize = 0;
        while i < self.components.len()
            invariant
                states == self@.components,
                ents == self@.entities,
                self.wf(),
                n == self@.materials.len(),
                buckets@.len() == n,
                i <= states.len(),
                forall|k: int|
                    0 <= k < states.len() ==> {
                        &&& ents.contains_key((#[trigger] states[k]).parent)
                        &&& ents[states[k].parent].active_material < n
                    },
                forall|m: int|
                    0 <= m < n ==> (#[trigger] buckets@[m])@ == indices_with_material(
                        states,
                        ents,
                        m as MaterialId,
                        i as int,
                    ),
            decreases states.len() - i,
        {
            let parent = self.components[i].parent_entity_id();
            assert(parent == states[i as int].parent);
            let m = match self.entities.get(&parent) {
                Some(entity) => entity.active_material(),
                None => {
                    assert(false);
                    0
                },
            };
            let ghost old_buckets = buckets@;
            buckets[m as usize].push(i);
            proof {
                assert forall|mm: int| 0 <= mm < n implies (#[trigger] buckets@[mm])@
                    == indices_with_material(states, ents, mm as MaterialId, i + 1) by {
                    if mm != m {
                        assert(buckets@[mm] == old_buckets[mm]);
                    }
                }
            }
            i = i + 1;
        }
        let mut out: HashMap<MaterialId, Vec<usize>> = HashMap::new();
        while buckets.len() > 0
            invariant
                n == self@.materials.len(),
                n <= u32::MAX,
                buckets@.len() <= n,
                forall|m: int|
                    0 <= m < buckets@.len() ==> (#[trigger] buckets@[m])@ == indices_with_material(
                        states,
                        ents,
                        m as MaterialId,
                        states.len() as int,
                    ),
                forall|m: MaterialId|
                    #[trigger] out@.contains_key(m) <==> (buckets@.len() <= m && m < n),
                forall|m: MaterialId|
                    #[trigger] out@.contains_key(m) ==> out@[m]@ == indices_with_material(
                        states,
                        ents,
                        m,
                        states.len() as int,
                    ),
            decreases buckets@.len(),
        {
            let ghost before = buckets@;
            let bucket = buckets.pop().unwrap();
            let key = buckets.len() as MaterialId;
            assert(bucket == before[key as int]);
            out.insert(key, bucket);
        }
        out
    }

    fn material_set_index(&self, pipeline_id: &PipelineId) -> (r: Option<usize>)
        ensures
            match r {
                Some(i) => i < self@.material_sets.len() && self@.material_sets[i as int].0
                    == pipeline_key(*pipeline_id),
                None => forall|i: int|
                    0 <= i < self@.material_sets.len() ==> (#[trigger] self@.material_sets[i]).0
                        != pipeline_key(*pipeline_id),
            },
    {
        let mut i: usize = 0;
        while i < self.pipeline_material_sets.len()
            invariant
                i <= self@.material_sets.len(),
                forall|j: int|
                    0 <= j < i ==> (#[trigger] self@.material_sets[j]).0 != pipeline_key(
                        *pipeline_id,
                    ),
            decreases self@.material_sets.len() - i,
        {
            if same_pipeline(&self.pipeline_material_sets[i].0, pipeline_id) {
                return Some(i);
            }
            i = i + 1;
        }
        None
    }

    /// The materials, in creation order, that are registered for `pipeline_id`;
    /// none where the pipeline has no material list.
    pub fn get_pipeline_materials(&self, pipeline_id: &PipelineId) -> (r: Vec<MaterialId>)
        requires
            self.wf(),
        ensures
            r@ == match material_set_of(self@.material_sets, pipeline_key(*pipeline_id)) {
                Some(ids) => self@.materials.filter(|m: MaterialId| ids.contains(m)),
                None => Seq::<MaterialId>::empty(),
            },
    {
        let found = self.material_set_index(pipeline_id);
        proof {
            lemma_material_set_of(self@.material_sets, pipeline_key(*pipeline_id));
        }
        match found {
            None => Vec::new(),
            Some(k) => {
                let ids = &self.pipeline_material_sets[k].1;
                let ghost idv = ids@;
                let ghost pred = |m: MaterialId| idv.contains(m);
                let mut out: Vec<MaterialId> = Vec::new();
                let mut i: usize = 0;
                while i < self.materials.len()
                    invariant
                        i <= self@.materials.len(),
                        idv == ids@,
                        pred == (|m: MaterialId| idv.contains(m)),
                        out@ == self@.materials.take(i as int).filter(pred),
                    decreases self@.materials.len() - i,
                {
                    let m = self.materials[i];
                    proof {
                        assert(self@.materials.take(i + 1).drop_last() =~= self@.materials.take(
                            i as int,
                        ));
                        reveal(Seq::filter);
                    }
                    if vec_contains_id(ids, m) {
                        out.push(m);
                    }
                    i = i + 1;
                }
                assert(self@.materials.take(self@.materials.len() as int) =~= self@.materials);
                out
            },
        }
    }

    /// Registers a material for the pipeline of the given shaders. Its
    /// identifier is the number of materials before it; the pipeline is noted
    /// as new where none of these shaders existed; and the new identifier is
    /// appended to the pipeline's material list, which is started where there
    /// is none.
    pub fn create_material(
        &mut self,
        vertex_shader_path: String,
        fragment_shader_path: String,
    ) -> (r: MaterialRegistration)
        requires
            old(self).wf(),
            old(self)@.materials.len() < u32::MAX,
        ensures
            final(self).wf(),
            r.id == old(self)@.materials.len(),
            r.new_pipeline == !old(self)@.pipelines.contains(
                (vertex_shader_path@, fragment_shader_path@),
            ),
            final(self)@ == (SceneView {
                materials: old(self)@.materials.push(r.id),
                pipelines: if r.new_pipeline {
                    old(self)@.pipelines.push((vertex_shader_path@, fragment_shader_path@))
                } else {
                    old(self)@.pipelines
                },
                material_sets: add_to_material_set(
                    old(self)@.material_sets,
                    (vertex_shader_path@, fragment_shader_path@),
                    r.id,
                ),
                ..old(self)@
            }),
            material_set_of(final(self)@.material_sets, (vertex_shader_path@, fragment_shader_path@))
                == Some(
                match material_set_of(
                    old(self)@.material_sets,
                    (vertex_shader_path@, fragment_shader_path@),
                ) {
                    Some(ids) => ids.push(r.id),
                    None => seq![r.id],
                },
            ),
            forall|k: (Seq<char>, Seq<char>)|
                k != (vertex_shader_path@, fragment_shader_path@) ==> #[trigger] material_set_of(
                    final(self)@.material_sets,
                    k,
                ) == material_set_of(old(self)@.material_sets, k),
    {
        let ghost key = (vertex_shader_path@, fragment_shader_path@);
        let pipeline_id: PipelineId = (vertex_shader_path, fragment_shader_path);
        let id = self.materials.len() as MaterialId;
        let mut known = false;
        let mut i: usize = 0;
        while i < self.pipelines.len()
            invariant
                i <= self@.pipelines.len(),
                key == pipeline_key(pipeline_id),
                known == exists|j: int| 0 <= j < i && self@.pipelines[j] == key,
            decreases self@.pipelines.len() - i,
        {
            let same = same_pipeline(&self.pipelines[i], &pipeline_id);
            proof {
                assert(self@.pipelines[i as int] == pipeline_key(self.pipelines@[i as int]));
                if !same {
                    assert forall|j: int| 0 <= j < i + 1 && self@.pipelines[j] == key implies j < i by {}
                }
            }
            if same {
                known = true;
            }
            i = i + 1;
        }
        assert(known == old(self)@.pipelines.contains(key)) by {
            if old(self)@.pipelines.contains(key) {
                let j = choose|j: int| 0 <= j < old(self)@.pipelines.len() && old(self)@.pipelines[j] == key;
                assert(0 <= j < i && self@.pipelines[j] == key);
            }
        }
        let ghost old_sets = self@.material_sets;
        let found = self.material_set_index(&pipeline_id);
        proof {
            lemma_material_set_of(old_sets, key);
        }
        match found {
            Some(k) => {
                self.pipeline_material_sets[k].1.push(id);
            },
            None => {
                let list_key: PipelineId = (pipeline_id.0.clone(), pipeline_id.1.clone());
                self.pipeline_material_sets.push((list_key, vec![id]));
            },
        }
        if !known {
            self.pipelines.push(pipeline_id);
        }
        self.materials.push(id);
        proof {
            assert(self@.materials =~= old(self)@.materials.push(id));
            if !known {
                assert(self@.pipelines =~= old(self)@.pipelines.push(key));
            } else {
                assert(self@.pipelines =~= old(self)@.pipelines);
            }
            let new_sets = self@.material_sets;
            match found {
                Some(k) => {
                    assert forall|j: int| 0 <= j < k implies (#[trigger] old_sets[j]).0 != key by {
                        assert(old_sets[j].0 != old_sets[k as int].0);
                    }
                    assert(material_set_of(old_sets, key) == Some(old_sets[k as int].1));
                    let expected = add_to_material_set(old_sets, key, id);
                    assert(new_sets.len() == expected.len());
                    assert forall|j: int| 0 <= j < new_sets.len() implies new_sets[j]
                        == expected[j] by {
                        if j != k {
                            assert(old_sets[j].0 != old_sets[k as int].0);
                        }
                    }
                    assert(new_sets =~= expected);
                    assert(new_sets[k as int] == (key, old_sets[k as int].1.push(id)));
                    assert forall|j: int| 0 <= j < k implies (#[trigger] new_sets[j]).0 != key by {
                        assert(new_sets[j].0 == old_sets[j].0);
                    }
                },
                None => {
                    assert(material_set_of(old_sets, key) is None);
                    assert(new_sets.len() == old_sets.len() + 1);
                    assert(new_sets[old_sets.len() as int].0 == key);
                    assert(new_sets[old_sets.len() as int].1 =~= seq![id]);
                    assert(new_sets =~= add_to_material_set(old_sets, key, id));
                    assert(new_sets[old_sets.len() as int] == (key, seq![id]));
                    assert forall|j: int| 0 <= j < old_sets.len() implies (
                    #[trigger] new_sets[j]).0 != key by {
                        assert(new_sets[j] == old_sets[j]);
                    }
                },
            }
            lemma_material_set_of(new_sets, key);
            assert forall|k: (Seq<char>, Seq<char>)| k != key implies #[trigger] material_set_of(
                new_sets,
                k,
            ) == material_set_of(old_sets, k) by {
                law_material_goes_only_to_its_pipeline(old_sets, key, id, k);
            }
        }
        MaterialRegistration { id, new_pipeline: !known }
    }

    /// Attaches a workload to `component`, replacing one it had.
    pub fn attach_workload(&mut self, component: ComponentId, workload: W)
        requires
            old(self).wf(),
        ensures
            final(self).wf(),
            final(self)@ == (SceneView {
                workloads: old(self)@.workloads.insert(component, workload),
                ..old(self)@
            }),
    {
        self.workloads.insert(component, workload);
    }

    /// The workloads by component, to drive them.
    pub fn workloads_mut(&mut self) -> (r: &mut HashMap<ComponentId, W>)
        requires
            old(self).wf(),
        ensures
            final(self).wf(),
            r@ == old(self)@.workloads,
            final(self)@ == (SceneView { workloads: final(r)@, ..old(self)@ }),
    {
        &mut self.workloads
    }

    /// The entity `id`, if it exists.
    pub fn get_entity(&self, id: EntityId) -> (r: Option<&Entity>)
        ensures
            match r {
                Some(e) => self@.entities.contains_key(id) && e@ == self@.entities[id],
                None => !self@.entities.contains_key(id),
            },
    {
        self.entities.get(&id)
    }

    /// Enables or disables the entity `id`; false, and nothing changes, where it does not exist.
    pub fn set_entity_enabled_state(&mut self, id: EntityId, enabled_state: bool) -> (found: bool)
        requires
            old(self).wf(),
        ensures
            final(self).wf(),
            found == old(self)@.entities.contains_key(id),
            final(self)@ == (if found {
                SceneView {
                    entities: old(self)@.entities.insert(
                        id,
                        EntityView { is_enabled: enabled_state, ..old(self)@.entities[id] },
                    ),
                    ..old(self)@
                }
            } else {
                old(self)@
            }),
    {
        match self.entities.remove(&id) {
            Some(mut entity) => {
                entity.set_enabled_state(enabled_state);
                self.entities.insert(id, entity);
                assert(self@.entities =~= old(self)@.entities.insert(
                    id,
                    EntityView { is_enabled: enabled_state, ..old(self)@.entities[id] },
                ));
                true
            },
            None => {
                assert(self@.entities =~= old(self)@.entities);
                false
            },
        }
    }

    /// Flips whether the entity `id` is enabled; false, and nothing changes, where it does not exist.
    pub fn toggle_entity_enabled_state(&mut self, id: EntityId) -> (found: bool)
        requires
            old(self).wf(),
        ensures
            final(self).wf(),
            found == old(self)@.entities.contains_key(id),
            final(self)@ == (if found {
                SceneView {
                    entities: old(self)@.entities.insert(
                        id,
                        EntityView {
                            is_enabled: !old(self)@.entities[id].is_enabled,
                            ..old(self)@.entities[id]
                        },
                    ),
                    ..old(self)@
                }
            } else {
                old(self)@
            }),
    {
        match self.entities.remove(&id) {
            Some(mut entity) => {
                entity.toggle_enabled_state();
                self.entities.insert(id, entity);
                assert(self@.entities =~= old(self)@.entities.insert(
                    id,
                    EntityView {
                        is_enabled: !old(self)@.entities[id].is_enabled,
                        ..old(self)@.entities[id]
                    },
                ));
                true
            },
            None => {
                assert(self@.entities =~= old(self)@.entities);
                false
            },
        }
    }

    /// The position of the first component with identifier `id`, if any.
    pub fn component_index(&self, id: ComponentId) -> (r: Option<usize>)
        ensures
            match r {
                Some(i) => {
                    &&& i < self@.components.len()
                    &&& self@.components[i as int].id == id
                    &&& forall|j: int| 0 <= j < i ==> (#[trigger] self@.components[j]).id != id
                },
                None => forall|j: int|
                    0 <= j < self@.components.len() ==> (#[trigger] self@.components[j]).id != id,
            },
    {
        let mut i: usize = 0;
        while i < self.components.len()
            invariant
                i <= self@.components.len(),
                forall|j: int| 0 <= j < i ==> (#[trigger] self@.components[j]).id != id,
            decreases self@.components.len() - i,
        {
            if self.components[i].id() == id {
                return Some(i);
            }
            i = i + 1;
        }
        None
    }

    /// Whether the component at `index` is enabled.
    pub fn component_is_enabled(&self, index: usize) -> (r: bool)
        requires
            index < self@.components.len(),
        ensures
            r == self@.components[index as int].enabled,
    {
        self.components[index].is_enabled()
    }

    /// Enables or disables the component at `index`; nothing else changes.
    pub fn set_component_enabled_state(&mut self, index: usize, enabled_state: bool)
        requires
            old(self).wf(),
            index < old(self)@.components.len(),
        ensures
            final(self).wf(),
            final(self)@ == (SceneView {
                components: old(self)@.components.update(
                    index as int,
                    ComponentState { enabled: enabled_state, ..old(self)@.components[index as int] },
                ),
                ..old(self)@
            }),
    {
        let ghost before = self.components@;
        self.components[index].set_enabled_state(enabled_state);
        proof {
            let x = self.components@[index as int];
            assert(self.components@ =~= before.update(index as int, x));
            assert(self@.components =~= old(self)@.components.update(
                index as int,
                ComponentState { enabled: enabled_state, ..old(self)@.components[index as int] },
            ));
        }
    }

    /// The positions, in rendering order, of the components to update: those
    /// that are enabled and whose parent entity exists and is enabled.
    pub fn components_to_update(&self) -> (r: Vec<usize>)
        ensures
            r@ == indices_to_update(self@.components, self@.entities, self@.components.len() as int),
    {
        let ghost states = self@.components;
        let ghost ents = self@.entities;
        let mut out: Vec<usize> = Vec::new();
        let mut i: usize = 0;
        while i < self.components.len()
            invariant
                states == self@.components,
                ents == self@.entities,
                i <= states.len(),
                out@ == indices_to_update(states, ents, i as int),
            decreases states.len() - i,
        {
            let c = &self.components[i];
            assert(component_state(*c) == states[i as int]);
            if c.is_enabled() {
                let parent = c.parent_entity_id();
                match self.entities.get(&parent) {
                    Some(entity) => {
                        if entity.is_enabled() {
                            out.push(i);
                        }
                    },
                    None => {},
                }
            }
            i = i + 1;
        }
        out
    }

    /// The components, in rendering order.
    pub fn components(&self) -> (r: &Vec<C>)
        ensures
            component_states(r@) == self@.components,
    {
        &self.components
    }

    /// The components, to update them in place. The scene keeps its invariant
    /// where the components are still in rendering order afterwards.
    pub fn components_mut(&mut self) -> (r: &mut Vec<C>)
        requires
            old(self).wf(),
        ensures
            component_states(r@) == old(self)@.components,
            final(self)@ == (SceneView { components: component_states(final(r)@), ..old(self)@ }),
            sorted_by_rendering_order(component_states(final(r)@)) ==> final(self).wf(),
    {
        &mut self.components
    }

    /// Calls `initialize` on every component, in rendering order.
    pub fn initialize(&self) {
        let mut i: usize = 0;
        while i < self.components.len()
            invariant
                i <= self.components@.len(),
            decreases self.components@.len() - i,
        {
            self.components[i].initialize();
            i = i + 1;
        }
    }
}

/// Each component is listed under exactly the material of its parent
/// entity, and each list is in increasing order of position.
pub proof fn law_components_listed_under_their_material(
    s: Seq<ComponentState>,
    entities: Map<EntityId, EntityView>,
    m: MaterialId,
    n: int,
)
    requires
        0 <= n <= s.len(),
        n <= usize::MAX + 1,
    ensures
        forall|i: int|
            #![trigger s[i]]
            0 <= i < n ==> (indices_with_material(s, entities, m, n).contains(i as usize)
                <==> entities[s[i].parent].active_material == m),
        forall|a: int, b: int|
            0 <= a < b < indices_with_material(s, entities, m, n).len() ==> (
            #[trigger] indices_with_material(s, entities, m, n)[a]) < (
            #[trigger] indices_with_material(s, entities, m, n)[b]),
        forall|a: int|
            0 <= a < indices_with_material(s, entities, m, n).len() ==> (
            #[trigger] indices_with_material(s, entities, m, n)[a]) < n,
    decreases n,
{
    if n > 0 {
        law_components_listed_under_their_material(s, entities, m, n - 1);
        let prev = indices_with_material(s, entities, m, n - 1);
        let cur = indices_with_material(s, entities, m, n);
        assert forall|i: int| #![trigger s[i]] 0 <= i < n implies (cur.contains(i as usize)
            <==> entities[s[i].parent].active_material == m) by {
            if i < n - 1 {
                if cur.contains(i as usize) && !prev.contains(i as usize) {
                    let k = choose|k: int| 0 <= k < cur.len() && cur[k] == i as usize;
                    assert(k == prev.len());
                }
                if prev.contains(i as usize) {
                    let k = choose|k: int| 0 <= k < prev.len() && prev[k] == i as usize;
                    assert(cur[k] == i as usize);
                }
            } else {
                if entities[s[i].parent].active_material == m {
                    assert(cur[prev.len() as int] == i as usize);
                } else {
                    if cur.contains(i as usize) {
                        let k = choose|k: int| 0 <= k < cur.len() && cur[k] == i as usize;
                        assert(prev[k] < n - 1);
                    }
                }
            }
        }
    }
}

/// An update reaches exactly the enabled components of enabled entities,
/// each once and in rendering order.
pub proof fn law_update_reaches_enabled_components(
    s: Seq<ComponentState>,
    entities: Map<EntityId, EntityView>,
    n: int,
)
    requires
        0 <= n <= s.len(),
        n <= usize::MAX + 1,
    ensures
        forall|i: int|
            #![trigger s[i]]
            0 <= i < n ==> (indices_to_update(s, entities, n).contains(i as usize) <==> takes_update(
                s[i],
                entities,
            )),
        forall|a: int, b: int|
            0 <= a < b < indices_to_update(s, entities, n).len() ==> (
            #[trigger] indices_to_update(s, entities, n)[a]) < (
            #[trigger] indices_to_update(s, entities, n)[b]),
        forall|a: int|
            0 <= a < indices_to_update(s, entities, n).len() ==> (#[trigger] indices_to_update(
                s,
                entities,
                n,
            )[a]) < n,
    decreases n,
{
    if n > 0 {
        law_update_reaches_enabled_components(s, entities, n - 1);
        let prev = indices_to_update(s, entities, n - 1);
        let cur = indices_to_update(s, entities, n);
        assert forall|i: int| #![trigger s[i]] 0 <= i < n implies (cur.contains(i as usize)
            <==> takes_update(s[i], entities)) by {
            if i < n - 1 {
                if cur.contains(i as usize) && !prev.contains(i as usize) {
                    let k = choose|k: int| 0 <= k < cur.len() && cur[k] == i as usize;
                    assert(k == prev.len());
                }
                if prev.contains(i as usize) {
                    let k = choose|k: int| 0 <= k < prev.len() && prev[k] == i as usize;
                    assert(cur[k] == i as usize);
                }
            } else {
                if takes_update(s[i], entities) {
                    assert(cur[prev.len() as int] == i as usize);
                } else {
                    if cur.contains(i as usize) {
                        let k = choose|k: int| 0 <= k < cur.len() && cur[k] == i as usize;
                        assert(prev[k] < n - 1);
                    }
                }
            }
        }
    }
}

/// A new component of rendering order `order` goes in after every component
/// that renders strictly earlier and before the first one that renders no
/// earlier, so that among equal orders the newer component comes first.
pub proof fn law_insertion_place(s: Seq<ComponentState>, order: i32)
    ensures
        0 <= insertion_index(s, order) <= s.len(),
        forall|j: int|
            0 <= j < insertion_index(s, order) ==> (#[trigger] s[j]).rendering_order < order,
        insertion_index(s, order) < s.len() ==> s[insertion_index(s, order)].rendering_order
            >= order,
{
    lemma_insertion_index_bounds(s, order);
}

/// The identifier that the next entity gets is not taken.
pub proof fn law_next_entity_id_is_fresh<W>(v: SceneView<W>)
    requires
        scene_wf(v),
        v.total_entities_created < u32::MAX,
    ensures
        !v.entities.contains_key((v.total_entities_created + 1) as EntityId),
{
}

proof fn lemma_insert_components_multiset(
    s: Seq<ComponentState>,
    cs: Seq<ComponentState>,
    parent: EntityId,
)
    ensures
        insert_components(s, cs, parent).to_multiset() =~= s.to_multiset().add(
            adopted(cs, parent).to_multiset(),
        ),
    decreases cs.len(),
{
    broadcast use vstd::seq_lib::group_to_multiset_ensures;
    broadcast use vstd::multiset::group_multiset_axioms;

    if cs.len() == 0 {
        assert(adopted(cs, parent) =~= Seq::<ComponentState>::empty());
        assert(adopted(cs, parent).to_multiset() =~= Multiset::<ComponentState>::empty());
    } else {
        let c = ComponentState { parent, ..cs[0] };
        let rest = cs.drop_first();
        lemma_insertion_index_bounds(s, cs[0].rendering_order);
        let t = insert_component(s, cs[0], parent);
        assert(t.to_multiset() =~= s.to_multiset().insert(c));
        lemma_insert_components_multiset(t, rest, parent);
        assert(adopted(cs, parent) =~= adopted(rest, parent).insert(0, c));
        assert(adopted(cs, parent).to_multiset() =~= adopted(rest, parent).to_multiset().insert(c));
    }
}

/// Creating an entity keeps every component there was, unchanged, and adds
/// each new one as a child of the new entity; the result is in rendering order.
pub proof fn law_create_entity_places_all_components(
    s: Seq<ComponentState>,
    cs: Seq<ComponentState>,
    parent: EntityId,
)
    requires
        sorted_by_rendering_order(s),
    ensures
        insert_components(s, cs, parent).len() == s.len() + cs.len(),
        sorted_by_rendering_order(insert_components(s, cs, parent)),
        insert_components(s, cs, parent).to_multiset() == s.to_multiset().add(
            adopted(cs, parent).to_multiset(),
        ),
{
    lemma_insert_components_sorted(s, cs, parent);
    lemma_insert_components_multiset(s, cs, parent);
}

/// The states of `cs` as children of `parent`.
pub open spec fn adopted(cs: Seq<ComponentState>, parent: EntityId) -> Seq<ComponentState> {
    cs.map_values(|c: ComponentState| ComponentState { parent, ..c })
}

/// Where each new component renders strictly later than every component
/// before it, the new components follow the old ones in the order given.
pub proof fn law_late_components_follow_in_order(
    s: Seq<ComponentState>,
    cs: Seq<ComponentState>,
    parent: EntityId,
)
    requires
        forall|i: int, j: int|
            0 <= i < s.len() && 0 <= j < cs.len() ==> (#[trigger] s[i]).rendering_order < (
            #[trigger] cs[j]).rendering_order,
        forall|i: int, j: int|
            0 <= i < j < cs.len() ==> (#[trigger] cs[i]).rendering_order < (
            #[trigger] cs[j]).rendering_order,
    ensures
        insert_components(s, cs, parent) == s + adopted(cs, parent),
    decreases cs.len(),
{
    if cs.len() == 0 {
        assert(s + adopted(cs, parent) =~= s);
    } else {
        let c = cs[0];
        assert forall|j: int| 0 <= j < s.len() implies (#[trigger] s[j]).rendering_order
            < c.rendering_order by {
            assert(s[j].rendering_order < cs[0].rendering_order);
        }
        lemma_insertion_index(s, c.rendering_order, s.len() as int);
        let t = insert_component(s, c, parent);
        assert(t =~= s.push(ComponentState { parent, ..c }));
        let rest = cs.drop_first();
        assert forall|i: int, j: int|
            0 <= i < t.len() && 0 <= j < rest.len() implies (#[trigger] t[i]).rendering_order < (
            #[trigger] rest[j]).rendering_order by {
            assert(rest[j] == cs[j + 1]);
            if i < s.len() {
                assert(t[i] == s[i]);
            } else {
                assert(t[i].rendering_order == cs[0].rendering_order);
            }
        }
        assert forall|i: int, j: int| 0 <= i < j < rest.len() implies (
        #[trigger] rest[i]).rendering_order < (#[trigger] rest[j]).rendering_order by {
            assert(rest[i] == cs[i + 1]);
            assert(rest[j] == cs[j + 1]);
        }
        law_late_components_follow_in_order(t, rest, parent);
        assert(t + adopted(rest, parent) =~= s + adopted(cs, parent));
    }
}

} // verus!
