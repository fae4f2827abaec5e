use vstd::prelude::*;

use crate::ecs::actions::Action;
use crate::ecs::component::{ComponentId, ComponentSystem};
use crate::ecs::scene::{Scene, SceneView};

verus! {

/// Hands a component's background work to the scene, which keeps it under
/// the component's identifier.
pub struct WorkloadAction<W>(pub ComponentId, pub W);

impl<C: ComponentSystem, W> Action<C, W> for WorkloadAction<W> {
    fn execute(self, scene: &mut Scene<C, W>)
        ensures
            final(scene)@ == (SceneView {
                workloads: old(scene)@.workloads.insert(self.0, self.1),
                ..old(scene)@
            }),
    {
        scene.attach_workload(self.0, self.1);
    }
}

} // verus!
