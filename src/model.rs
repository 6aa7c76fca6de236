//! A named model and the capability every transform offers.
use vstd::prelude::*;
use crate::error::Error;
use crate::types::{Mesh, Material};

verus! {

/// A model: one mesh and a display name.
#[derive(Debug, Clone)]
pub struct Model {
    pub mesh: Mesh,
    pub name: String,
}

/// A transform rewrites a model's mesh in place. It may change positions,
/// normals and the winding of faces, never how many vertices or faces there
/// are, and it leaves the name, the materials and the face materials alone.
pub trait Transform {
    /// What applying this transform to `before` does, beyond what every
    /// transform promises: `after` is the model it leaves and `r` what it
    /// returns. A transform that states nothing more keeps this default.
    open spec fn applied(&self, before: Model, after: Model, r: Result<(), Error>) -> bool {
        true
    }

    fn apply(&self, model: &mut Model) -> (r: Result<(), Error>)
        ensures
            self.applied(*old(model), *final(model), r),
            final(model).mesh.vertices@.len() == old(model).mesh.vertices@.len(),
            final(model).mesh.faces@.len() == old(model).mesh.faces@.len(),
            final(model).mesh.face_materials == old(model).mesh.face_materials,
            final(model).mesh.materials == old(model).mesh.materials,
            final(model).name == old(model).name,
            r is Err ==> r->Err_0 is TransformError,
    ;
}

impl Model {
    /// An empty model called `name`.
    pub fn new(name: &str) -> (r: Model)
        ensures
            r.name@ == name@,
            r.mesh.vertices@.len() == 0,
            r.mesh.faces@.len() == 0,
            r.mesh.materials@ == Map::<String, Material>::empty(),
            r.mesh.face_materials@.len() == 0,
    {
        Model { mesh: Mesh::new(), name: name.to_owned() }
    }

    /// Applies `transform` to this model and reports what it returned; the
    /// caller decides whether to go on after a failure.
    pub fn apply<T: Transform>(&mut self, transform: T) -> (r: Result<(), Error>)
        ensures
            transform.applied(*old(self), *final(self), r),
            final(self).mesh.vertices@.len() == old(self).mesh.vertices@.len(),
            final(self).mesh.faces@.len() == old(self).mesh.faces@.len(),
            final(self).mesh.face_materials == old(self).mesh.face_materials,
            final(self).mesh.materials == old(self).mesh.materials,
            final(self).name == old(self).name,
            r is Err ==> r->Err_0 is TransformError,
    {
        transform.apply(self)
    }
}

} // verus!
