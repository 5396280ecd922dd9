//! A drawable object: one mesh, placed any number of times.

use crate::instance::{Instance, Model};
use crate::mesh::Mesh;
use crate::registry::{Entries, Registry};
use std::sync::Arc;
use vstd::prelude::*;

verus! {

/// Another handle on the value that `a` points to. Wraps `Arc::clone` of the
/// standard library, which makes a second pointer to the same allocation: the
/// value seen through the result is the value seen through `a`.
#[verifier::external_body]
pub(crate) fn share<T>(a: &Arc<T>) -> (r: Arc<T>)
    ensures
        r == *a,
{
    Arc::clone(a)
}

/// What one draw call needs: the geometry, one model matrix per instance in
/// registration order, and the two counts of the indexed, instanced draw.
pub struct DrawBatch {
    pub geometry: Arc<Mesh>,
    pub instances: Vec<Model>,
    pub index_count: usize,
    pub instance_count: usize,
}

/// The content of a `DrawBatch`.
pub struct DrawBatchView {
    pub geometry: Mesh,
    pub instances: Seq<Model>,
    pub index_count: nat,
    pub instance_count: nat,
}

impl View for DrawBatch {
    type V = DrawBatchView;

    open spec fn view(&self) -> DrawBatchView {
        DrawBatchView {
            geometry: *self.geometry,
            instances: self.instances@,
            index_count: self.index_count as nat,
            instance_count: self.instance_count as nat,
        }
    }
}

/// The content of an `Object`: its instances by name, its geometry, and the
/// cached batch, `None` while the cache is stale.
pub struct ObjectView {
    pub instances: Entries<Instance>,
    pub geometry: Mesh,
    pub batch: Option<DrawBatchView>,
}

impl ObjectView {
    /// The model matrices of the instances, in registration order.
    pub open spec fn models(self) -> Seq<Model> {
        self.instances.items.map_values(|i: Instance| i.matrix())
    }

    /// The batch that a rebuild makes of the object as it stands.
    pub open spec fn fresh_batch(self) -> DrawBatchView {
        DrawBatchView {
            geometry: self.geometry,
            instances: self.models(),
            index_count: self.geometry.indices@.len(),
            instance_count: self.instances.len(),
        }
    }

    /// Names are unique, and a cached batch is the batch that a rebuild would
    /// make now.
    pub open spec fn wf(self) -> bool {
        &&& self.instances.wf()
        &&& self.batch matches Some(b) ==> b == self.fresh_batch()
    }

    /// Whether the cached batch is current.
    pub open spec fn valid(self) -> bool {
        self.batch is Some
    }

    /// The object after its batch was asked for.
    pub open spec fn rebuilt(self) -> ObjectView {
        ObjectView { batch: Some(self.fresh_batch()), ..self }
    }

    /// The object after a handle on the instance `name` was given out and the
    /// instance left as `instance`: the cache is stale.
    pub open spec fn with_instance(self, name: Seq<char>, instance: Instance) -> ObjectView {
        ObjectView { instances: self.instances.insert(name, instance), batch: None, ..self }
    }

    /// The object with its cache marked stale.
    pub open spec fn invalidated(self) -> ObjectView {
        ObjectView { batch: None, ..self }
    }
}

impl ObjectView {
    /// An object without instances has a batch all the same: one that draws
    /// nothing.
    pub proof fn lemma_empty_batch(self)
        requires
            self.instances.wf(),
            self.instances.len() == 0,
        ensures
            self.fresh_batch().instance_count == 0,
            self.fresh_batch().instances == Seq::<Model>::empty(),
            self.rebuilt().batch == Some(self.fresh_batch()),
    {
    }

    /// A rebuild leaves a well-formed object well formed and current, changes
    /// nothing but the cache, and a second rebuild changes nothing at all.
    pub proof fn lemma_rebuilt(self)
        requires
            self.wf(),
        ensures
            self.rebuilt().wf(),
            self.rebuilt().valid(),
            self.rebuilt().instances == self.instances,
            self.rebuilt().rebuilt() == self.rebuilt(),
            self.valid() ==> self.rebuilt() == self,
    {
    }

    /// Whatever is done through the handle on an instance, the object stays
    /// well formed, its cache is stale, the instance is the one left behind
    /// and every instance of another name is as it was.
    pub proof fn lemma_with_instance(self, name: Seq<char>, instance: Instance)
        requires
            self.wf(),
        ensures
            self.with_instance(name, instance).wf(),
            !self.with_instance(name, instance).valid(),
            self.with_instance(name, instance).instances.contains(name),
            self.with_instance(name, instance).instances.get(name) == instance,
            forall|other: Seq<char>|
                other != name && self.instances.contains(other) ==> {
                    &&& #[trigger] self.with_instance(name, instance).instances.contains(other)
                    &&& self.with_instance(name, instance).instances.get(other)
                        == self.instances.get(other)
                },
    {
        self.instances.lemma_insert(name, instance);
    }
}

/// A mesh and its instances, with the draw batch cached between changes.
pub struct Object {
    instances: Registry<Instance>,
    mesh: Arc<Mesh>,
    command_buffer: Option<Arc<DrawBatch>>,
}

impl View for Object {
    type V = ObjectView;

    closed spec fn view(&self) -> ObjectView {
        ObjectView {
            instances: self.instances@,
            geometry: *self.mesh,
            batch: match self.command_buffer {
                Some(b) => Some(b@),
                None => None,
            },
        }
    }
}

impl Object {
    #[verifier::type_invariant]
    pub closed spec fn wf(self) -> bool {
        self@.wf()
    }

    /// An object of the given geometry with no instances and a stale cache.
    pub fn new(mesh: Mesh) -> (r: Self)
        ensures
            r@ == (ObjectView { instances: Entries::empty(), geometry: mesh, batch: None }),
    {
        Object { instances: Registry::new(), mesh: Arc::new(mesh), command_buffer: None }
    }

    /// The draw batch. A current cache is handed out as it is; a stale one is
    /// rebuilt from the instances first, one matrix per instance.
    pub fn command_buffer(&mut self) -> (batch: Arc<DrawBatch>)
        ensures
            old(self)@.wf(),
            batch@ == old(self)@.fresh_batch(),
            final(self)@ == old(self)@.rebuilt(),
            old(self)@.valid() ==> final(self)@ == old(self)@,
    {
        proof {
            use_type_invariant(&*self);
        }
        match &self.command_buffer {
            Some(cached) => share(cached),
            None => {
                let count = self.instances.len();
                let mut models: Vec<Model> = Vec::new();
                let mut i: usize = 0;
                while i < count
                    invariant
                        i <= count,
                        count == self@.instances.len(),
                        self@.wf(),
                        models@ == self@.models().take(i as int),
                    decreases count - i,
                {
                    let matrix = self.instances.get(i).model();
                    models.push(matrix);
                    i += 1;
                }
                assert(models@ =~= self@.models());
                let built = Arc::new(
                    DrawBatch {
                        geometry: share(&self.mesh),
                        instances: models,
                        index_count: self.mesh.indices.len(),
                        instance_count: count,
                    },
                );
                let batch = share(&built);
                self.command_buffer = Some(built);
                batch
            },
        }
    }

    /// Registers an instance in its initial state under `id`, replacing an
    /// earlier one of that name, and hands out a handle on it. The cache is
    /// stale from here on.
    pub fn create_instance(&mut self, id: &str) -> (instance: &mut Instance)
        ensures
            instance.initial(),
            final(self)@ == old(self)@.with_instance(id@, *final(instance)),
    {
        proof {
            use_type_invariant(&*self);
        }
        self.command_buffer = None;
        let mut instances = Registry::new();
        core::mem::swap(&mut self.instances, &mut instances);
        let fresh = Instance::default();
        let i = instances.insert(id, fresh);
        core::mem::swap(&mut self.instances, &mut instances);
        let handle = self.instances.get_mut(i);
        proof {
            old(self)@.instances.lemma_insert_set(id@, fresh, *final(handle));
        }
        handle
    }

    /// A handle on the instance registered under `id`. Handing it out marks
    /// the cache stale, whatever the handle is then used for.
    pub fn get_instance(&mut self, id: &str) -> (instance: &mut Instance)
        requires
            old(self)@.instances.contains(id@),
        ensures
            *instance == old(self)@.instances.get(id@),
            final(self)@ == old(self)@.with_instance(id@, *final(instance)),
    {
        self.invalidate();
        let found = self.instances.position(id);
        self.instances.get_mut(found.unwrap())
    }

    /// Marks the cache stale.
    pub(crate) fn invalidate(&mut self)
        ensures
            final(self)@ == old(self)@.invalidated(),
        no_unwind
    {
        proof {
            use_type_invariant(&*self);
        }
        self.command_buffer = None;
    }

    /// Whether an instance is registered under `id`.
    pub fn has_instance(&self, id: &str) -> (b: bool)
        ensures
            b == self@.instances.contains(id@),
    {
        self.instances.contains(id)
    }

    /// The number of instances.
    pub fn instance_count(&self) -> (n: usize)
        ensures
            n == self@.instances.len(),
    {
        self.instances.len()
    }

    /// Whether the cached batch is current.
    pub fn is_valid(&self) -> (b: bool)
        ensures
            b == self@.valid(),
    {
        self.command_buffer.is_some()
    }
}

} // verus!
