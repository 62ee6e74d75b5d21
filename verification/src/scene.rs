//! A scene: the objects and the table of their materials.

use vstd::prelude::*;
use crate::hittable::Hittable;
use crate::material::Material;

verus! {

/// What a camera looks at.
pub struct Scene {
    pub world: Hittable,
    /// The materials. An object names its material by its place here.
    pub materials: Vec<Material>,
}

impl Scene {
    /// Whether the objects and the materials are well formed, and every
    /// material that an object names is in the table.
    pub open spec fn wf(&self) -> bool {
        &&& self.world.wf()
        &&& self.world.materials_below(self.materials@.len())
        &&& forall|i: int| 0 <= i < self.materials@.len() ==> (#[trigger] self.materials@[i]).wf()
    }

    /// A scene of given objects and materials; none unless all of them are
    /// well formed and every material that an object names is in the table.
    pub fn new(world: Hittable, materials: Vec<Material>) -> (r: Option<Scene>)
        ensures
            r.is_some() <==> (Scene { world, materials }).wf(),
            r matches Some(scene) ==> scene == (Scene { world, materials }),
    {
        if !world.valid() || !world.materials_within(materials.len()) {
            return None;
        }
        let mut i: usize = 0;
        while i < materials.len()
            invariant
                i <= materials@.len(),
                forall|k: int| 0 <= k < i ==> (#[trigger] materials@[k]).wf(),
            decreases materials@.len() - i,
        {
            if !materials[i].valid() {
                assert(!(Scene { world, materials }).materials@[i as int].wf());
                return None;
            }
            i = i + 1;
        }
        Some(Scene { world, materials })
    }
}

} // verus!
