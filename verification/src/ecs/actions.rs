use vstd::prelude::*;

use super::component::ComponentSystem;
use super::scene::Scene;

verus! {

/// Something that a component asks the scene to do, which the scene cannot
/// decide by itself; it is carried out once, on the scene.
pub trait Action<C: ComponentSystem, W> {
    fn execute(self, scene: &mut Scene<C, W>)
        requires
            old(scene).wf(),
        ensures
            final(scene).wf(),
    ;
}

} // verus!
