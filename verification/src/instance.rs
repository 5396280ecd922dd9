//! One placement of an object in the world.

use crate::camera::ONE;
use vstd::prelude::*;

verus! {

/// A model matrix: sixteen IEEE-754 single-precision bit patterns in
/// column-major order.
#[derive(Clone, Copy, Debug, PartialEq, Eq)]
pub struct Model {
    pub model: [u32; 16],
}

impl Model {
    /// The identity matrix.
    pub open spec fn identity() -> Model {
        Model {
            model: [
                ONE, 0u32, 0u32, 0u32,
                0u32, ONE, 0u32, 0u32,
                0u32, 0u32, ONE, 0u32,
                0u32, 0u32, 0u32, ONE,
            ],
        }
    }
}

impl Default for Model {
    fn default() -> (r: Self)
        ensures
            r == Model::identity(),
    {
        Model {
            model: [
                ONE, 0u32, 0u32, 0u32,
                0u32, ONE, 0u32, 0u32,
                0u32, 0u32, ONE, 0u32,
                0u32, 0u32, 0u32, ONE,
            ],
        }
    }
}

/// Position, rotation angles about the three axes, and uniform scale, each
/// component an IEEE-754 single-precision bit pattern.
#[derive(Clone, Copy, Debug, PartialEq, Eq)]
pub struct Transform {
    pub position: [u32; 3],
    pub angle: [u32; 3],
    pub scale: u32,
}

impl Transform {
    /// At the origin, unrotated, at scale one.
    pub open spec fn initial() -> Transform {
        Transform { position: [0u32, 0u32, 0u32], angle: [0u32, 0u32, 0u32], scale: ONE }
    }
}

/// A transform together with the model matrix that was made from it. The two
/// change only together, so the matrix never lags behind the transform.
#[derive(Clone, Copy, Debug, PartialEq, Eq)]
pub struct Instance {
    transform: Transform,
    model: Model,
}

impl Instance {
    /// The transform last applied.
    pub closed spec fn placed(self) -> Transform {
        self.transform
    }

    /// The model matrix that belongs to `placed()`.
    pub closed spec fn matrix(self) -> Model {
        self.model
    }

    /// The instance every registration starts from.
    pub open spec fn initial(self) -> bool {
        self.placed() == Transform::initial() && self.matrix() == Model::identity()
    }

    /// Replaces the transform by what `f` makes of it and at once replaces the
    /// model matrix by what `bake` makes of the new transform.
    pub fn update<F, B>(&mut self, f: F, bake: B) where
        F: FnOnce(Transform) -> Transform,
        B: FnOnce(&Transform) -> Model,

        requires
            f.requires((old(self).placed(),)),
            forall|t: Transform| f.ensures((old(self).placed(),), t) ==> bake.requires((&t,)),
        ensures
            f.ensures((old(self).placed(),), final(self).placed()),
            bake.ensures((&final(self).placed(),), final(self).matrix()),
    {
        let transform = f(self.transform);
        let model = bake(&transform);
        self.transform = transform;
        self.model = model;
    }

    /// The transform last applied.
    pub fn transform(&self) -> (t: Transform)
        ensures
            t == self.placed(),
    {
        self.transform
    }

    /// The model matrix of the transform last applied.
    pub fn model(&self) -> (m: Model)
        ensures
            m == self.matrix(),
    {
        self.model
    }
}

impl Default for Instance {
    fn default() -> (r: Self)
        ensures
            r.initial(),
    {
        let transform = Transform {
            position: [0u32, 0u32, 0u32],
            angle: [0u32, 0u32, 0u32],
            scale: ONE,
        };
        Instance { transform, model: Model::default() }
    }
}

} // verus!
