//! A group of objects that are drawn with one pipeline.

use crate::mesh::Mesh;
use crate::object::{share, DrawBatch, DrawBatchView, Object, ObjectView};
use crate::pipeline::{CullMode, FrontFace, Pipeline, RenderPass, ShaderModule, Viewport};
use crate::registry::{Entries, Registry};
use std::sync::Arc;
use vstd::prelude::*;

verus! {

/// The content of a list of shared batches.
pub open spec fn batch_views(list: Seq<Arc<DrawBatch>>) -> Seq<DrawBatchView> {
    list.map_values(|b: Arc<DrawBatch>| b@)
}

/// A copy of `list` that shares every element with it.
pub fn share_all<T>(list: &Vec<Arc<T>>) -> (copy: Vec<Arc<T>>)
    ensures
        copy@ == list@,
{
    let mut copy: Vec<Arc<T>> = Vec::new();
    let mut i: usize = 0;
    while i < list.len()
        invariant
            i <= list.len(),
            copy@ == list@.take(i as int),
        decreases list.len() - i,
    {
        copy.push(share(&list[i]));
        i += 1;
    }
    copy
}

/// What a group hands to the recorder: its pipeline and the batches of its
/// objects, in registration order.
pub struct BatchList {
    pub pipeline: Pipeline,
    pub batches: Vec<Arc<DrawBatch>>,
}

/// The content of a `Group`: its objects by name, its two shaders, its
/// pipeline, and the cached list of batches, `None` while the cache is stale.
pub struct GroupView {
    pub objects: Entries<ObjectView>,
    pub vertex_shader: ShaderModule,
    pub fragment_shader: ShaderModule,
    pub pipeline: Pipeline,
    pub list: Option<Seq<DrawBatchView>>,
}

impl GroupView {
    /// The batch of every object, as a rebuild makes it, in registration
    /// order.
    pub open spec fn batches(self) -> Seq<DrawBatchView> {
        self.objects.items.map_values(|o: ObjectView| o.fresh_batch())
    }

    /// Names are unique, the pipeline is made of the group's shaders, and a
    /// cached list is the list that a rebuild would make now, over objects
    /// whose own caches are current.
    pub open spec fn coherent(self) -> bool {
        &&& self.objects.wf()
        &&& self.pipeline == Pipeline::forward(
            self.vertex_shader,
            self.fragment_shader,
            self.pipeline.render_pass,
            self.pipeline.viewport,
        )
        &&& self.list matches Some(l) ==> {
            &&& l == self.batches()
            &&& forall|i: int|
                0 <= i < self.objects.len() ==> (#[trigger] self.objects.items[i]).valid()
        }
    }

    /// The group is coherent and so is every object in it.
    pub open spec fn wf(self) -> bool {
        &&& self.coherent()
        &&& forall|i: int| 0 <= i < self.objects.len() ==> (#[trigger] self.objects.items[i]).wf()
    }

    /// Whether the cached list is current.
    pub open spec fn valid(self) -> bool {
        self.list is Some
    }

    /// The objects, each with its batch rebuilt.
    pub open spec fn rebuilt_objects(self) -> Entries<ObjectView> {
        Entries {
            names: self.objects.names,
            items: self.objects.items.map_values(|o: ObjectView| o.rebuilt()),
        }
    }

    /// The group after its batch list was asked for: a current cache leaves it
    /// as it is, a stale one is rebuilt together with every object below it.
    pub open spec fn rebuilt(self) -> GroupView {
        if self.valid() {
            self
        } else {
            GroupView { objects: self.rebuilt_objects(), list: Some(self.batches()), ..self }
        }
    }

    /// The group after a handle on the object `name` was given out and the
    /// object left as `object`: the cached list is stale.
    pub open spec fn with_object(self, name: Seq<char>, object: ObjectView) -> GroupView {
        GroupView { objects: self.objects.insert(name, object), list: None, ..self }
    }

    /// The group after its pipeline was made anew for another render pass and
    /// viewport. No cache below or at the group is touched.
    pub open spec fn with_pipeline(self, render_pass: RenderPass, viewport: Viewport) -> GroupView {
        GroupView {
            pipeline: Pipeline::forward(
                self.vertex_shader,
                self.fragment_shader,
                render_pass,
                viewport,
            ),
            ..self
        }
    }

    /// The objects, each with its cache marked stale.
    pub open spec fn invalidated_objects(self) -> Entries<ObjectView> {
        Entries {
            names: self.objects.names,
            items: self.objects.items.map_values(|o: ObjectView| o.invalidated()),
        }
    }

    /// The group with every cache at and below it marked stale.
    pub open spec fn invalidated(self) -> GroupView {
        GroupView { objects: self.invalidated_objects(), list: None, ..self }
    }
}

impl GroupView {
    /// A rebuild leaves a well-formed group well formed and current, with
    /// every object current; it changes no name and nothing that is drawn; a
    /// second rebuild changes nothing at all.
    pub proof fn lemma_rebuilt(self)
        requires
            self.wf(),
        ensures
            self.rebuilt().wf(),
            self.rebuilt().valid(),
            self.rebuilt().objects.names == self.objects.names,
            self.rebuilt().batches() == self.batches(),
            self.rebuilt().pipeline == self.pipeline,
            self.rebuilt().rebuilt() == self.rebuilt(),
            self.valid() ==> self.rebuilt() == self,
            forall|i: int|
                0 <= i < self.objects.len() ==> (#[trigger] self.rebuilt().objects.items[i]).valid(),
    {
        if !self.valid() {
            let after = self.rebuilt();
            assert(after.batches() =~= self.batches());
            assert forall|i: int| 0 <= i < after.objects.len() implies (
            #[trigger] after.objects.items[i]).wf() && after.objects.items[i].valid() by {
                self.objects.items[i].lemma_rebuilt();
            }
        }
    }

    /// Whatever is done through the handle on an object, as long as the object
    /// is left well formed: the group stays well formed, its cached list is
    /// stale, the object is the one left behind, and every object of another
    /// name is as it was, its cache included.
    pub proof fn lemma_with_object(self, name: Seq<char>, object: ObjectView)
        requires
            self.wf(),
            object.wf(),
        ensures
            self.with_object(name, object).wf(),
            !self.with_object(name, object).valid(),
            self.with_object(name, object).objects.contains(name),
            self.with_object(name, object).objects.get(name) == object,
            forall|other: Seq<char>|
                other != name && self.objects.contains(other) ==> {
                    &&& #[trigger] self.with_object(name, object).objects.contains(other)
                    &&& self.with_object(name, object).objects.get(other) == self.objects.get(
                        other,
                    )
                },
    {
        self.objects.lemma_insert(name, object);
        let after = self.with_object(name, object);
        assert forall|i: int| 0 <= i < after.objects.len() implies (
        #[trigger] after.objects.items[i]).wf() by {
            if self.objects.contains(name) {
                if i != self.objects.index_of(name) {
                }
            } else {
                if i < self.objects.len() {
                }
            }
        }
    }
}

/// Objects by name, the pipeline they share, and the cached list of their
/// batches.
pub struct Group {
    objects: Registry<Object>,
    pipeline: Pipeline,
    vertex_shader: ShaderModule,
    fragment_shader: ShaderModule,
    command_buffers: Option<Vec<Arc<DrawBatch>>>,
}

/// The function that takes an object to its content.
pub open spec fn object_view() -> spec_fn(Object) -> ObjectView {
    |o: Object| o@
}

/// The content of the objects of a registry.
pub open spec fn object_views(objects: Entries<Object>) -> Entries<ObjectView> {
    objects.map(object_view())
}

impl View for Group {
    type V = GroupView;

    closed spec fn view(&self) -> GroupView {
        GroupView {
            objects: object_views(self.objects@),
            vertex_shader: self.vertex_shader,
            fragment_shader: self.fragment_shader,
            pipeline: self.pipeline,
            list: match self.command_buffers {
                Some(l) => Some(batch_views(l@)),
                None => None,
            },
        }
    }
}

impl Group {
    #[verifier::type_invariant]
    pub closed spec fn wf(self) -> bool {
        self@.coherent()
    }

    /// A group without objects, with a pipeline of the two shaders.
    pub fn new(
        vertex_shader: ShaderModule,
        fragment_shader: ShaderModule,
        render_pass: RenderPass,
        viewport: Viewport,
    ) -> (r: Self)
        ensures
            r@ == (GroupView {
                objects: Entries::empty(),
                vertex_shader,
                fragment_shader,
                pipeline: Pipeline::forward(vertex_shader, fragment_shader, render_pass, viewport),
                list: None,
            }),
    {
        let objects = Registry::new();
        let pipeline = Self::create_pipeline(vertex_shader, fragment_shader, render_pass, viewport);
        assert(object_views(objects@).items =~= Seq::empty());
        Group { objects, pipeline, vertex_shader, fragment_shader, command_buffers: None }
    }

    /// Makes the pipeline anew for another render pass and viewport, with the
    /// shaders the group was made with. No cache is marked stale by this.
    pub fn recreate_pipeline(&mut self, render_pass: RenderPass, viewport: Viewport)
        ensures
            final(self)@ == old(self)@.with_pipeline(render_pass, viewport),
    {
        proof {
            use_type_invariant(&*self);
        }
        self.pipeline =
        Self::create_pipeline(self.vertex_shader, self.fragment_shader, render_pass, viewport);
    }

    fn create_pipeline(
        vertex_shader: ShaderModule,
        fragment_shader: ShaderModule,
        render_pass: RenderPass,
        viewport: Viewport,
    ) -> (pipeline: Pipeline)
        ensures
            pipeline == Pipeline::forward(vertex_shader, fragment_shader, render_pass, viewport),
    {
        Pipeline {
            vertex_shader,
            fragment_shader,
            render_pass,
            viewport,
            cull_mode: CullMode::Back,
            front_face: FrontFace::CounterClockwise,
            depth_test: true,
        }
    }

    /// The pipeline and the batch of every object, in registration order. A
    /// current cache is handed out as it is and no object is visited; a stale
    /// one is rebuilt, and with it the batch of every object that is stale.
    pub fn command_buffers(&mut self) -> (list: BatchList)
        ensures
            old(self)@.coherent(),
            list.pipeline == old(self)@.pipeline,
            batch_views(list.batches@) == old(self)@.batches(),
            list.batches@.len() == old(self)@.objects.len(),
            final(self)@ == old(self)@.rebuilt(),
    {
        proof {
            use_type_invariant(&*self);
        }
        if let Some(cached) = &self.command_buffers {
            return BatchList { pipeline: self.pipeline, batches: share_all(cached) };
        }
        let count = self.objects.len();
        let mut batches: Vec<Arc<DrawBatch>> = Vec::new();
        let mut i: usize = 0;
        while i < count
            invariant
                i <= count,
                count == old(self)@.objects.len(),
                old(self)@.coherent(),
                !old(self)@.valid(),
                self@.coherent(),
                self@.list is None,
                self@.pipeline == old(self)@.pipeline,
                self@.vertex_shader == old(self)@.vertex_shader,
                self@.fragment_shader == old(self)@.fragment_shader,
                self@.objects.names == old(self)@.objects.names,
                self@.objects.items.len() == count,
                forall|j: int|
                    0 <= j < i ==> #[trigger] self@.objects.items[j] == old(
                        self,
                    )@.objects.items[j].rebuilt(),
                forall|j: int|
                    i <= j < count ==> #[trigger] self@.objects.items[j] == old(
                        self,
                    )@.objects.items[j],
                batches@.len() == i,
                old(self)@.batches().len() == count,
                batch_views(batches@) == old(self)@.batches().take(i as int),
            decreases count - i,
        {
            let ghost before = self.objects@;
            let ghost seen = self@;
            let object = self.objects.get_mut(i);
            let batch = object.command_buffer();
            proof {
                before.lemma_map_set(object_view(), i as int, self.objects@.items[i as int]);
                assert(self@.objects == seen.objects.set(
                    i as int,
                    seen.objects.items[i as int].rebuilt(),
                ));
            }
            let ghost listed = batches@;
            batches.push(batch);
            assert(batch_views(batches@) =~= old(self)@.batches().take(i + 1)) by {
                assert(batch_views(listed) == old(self)@.batches().take(i as int));
            }
            i += 1;
        }
        assert(batch_views(batches@) =~= old(self)@.batches());
        assert(self@.objects.items =~= old(self)@.rebuilt_objects().items);
        let list = BatchList { pipeline: self.pipeline, batches: share_all(&batches) };
        proof {
            assert(self@.batches() =~= old(self)@.batches());
        }
        self.command_buffers = Some(batches);
        list
    }

    /// Registers a new object of the given geometry under `id`, replacing an
    /// earlier one of that name, and hands out a handle on it. The cached list
    /// is stale from here on.
    pub fn create_object(&mut self, id: &str, mesh: Mesh) -> (object: &mut Object)
        ensures
            object@ == (ObjectView { instances: Entries::empty(), geometry: mesh, batch: None }),
            final(self)@ == old(self)@.with_object(id@, final(object)@),
    {
        proof {
            use_type_invariant(&*self);
        }
        self.command_buffers = None;
        let mut objects = Registry::new();
        core::mem::swap(&mut self.objects, &mut objects);
        let fresh = Object::new(mesh);
        let ghost before = objects@;
        let i = objects.insert(id, fresh);
        let ghost inserted = objects@;
        core::mem::swap(&mut self.objects, &mut objects);
        let handle = self.objects.get_mut(i);
        proof {
            before.lemma_insert(id@, fresh);
            before.lemma_map_insert(object_view(), id@, fresh);
            inserted.lemma_map_set(object_view(), i as int, *final(handle));
            old(self)@.objects.lemma_insert_set(id@, fresh@, final(handle)@);
        }
        handle
    }

    /// A handle on the object registered under `id`. Handing it out marks the
    /// cached list stale, whatever the handle is then used for.
    pub fn get_object(&mut self, id: &str) -> (object: &mut Object)
        requires
            old(self)@.objects.contains(id@),
        ensures
            object@ == old(self)@.objects.get(id@),
            final(self)@ == old(self)@.with_object(id@, final(object)@),
    {
        proof {
            use_type_invariant(&*self);
        }
        self.command_buffers = None;
        let ghost before = self.objects@;
        let found = self.objects.position(id);
        let handle = self.objects.get_mut(found.unwrap());
        proof {
            before.lemma_map_set(object_view(), before.index_of(id@), *final(handle));
        }
        handle
    }

    /// Marks the cached list and the batch of every object stale.
    pub(crate) fn invalidate(&mut self)
        ensures
            final(self)@ == old(self)@.invalidated(),
        no_unwind
    {
        proof {
            use_type_invariant(&*self);
        }
        self.command_buffers = None;
        let count = self.objects.len();
        let mut i: usize = 0;
        while i < count
            invariant
                i <= count,
                count == old(self)@.objects.len(),
                old(self)@.coherent(),
                self@.coherent(),
                self@.list is None,
                self@.pipeline == old(self)@.pipeline,
                self@.vertex_shader == old(self)@.vertex_shader,
                self@.fragment_shader == old(self)@.fragment_shader,
                self@.objects.names == old(self)@.objects.names,
                self@.objects.items.len() == count,
                forall|j: int|
                    0 <= j < i ==> #[trigger] self@.objects.items[j] == old(
                        self,
                    )@.objects.items[j].invalidated(),
                forall|j: int|
                    i <= j < count ==> #[trigger] self@.objects.items[j] == old(
                        self,
                    )@.objects.items[j],
            decreases count - i,
        {
            let ghost before = self.objects@;
            let ghost seen = self@;
            let object = self.objects.get_mut(i);
            object.invalidate();
            proof {
                before.lemma_map_set(object_view(), i as int, self.objects@.items[i as int]);
                assert(self@.objects == seen.objects.set(
                    i as int,
                    seen.objects.items[i as int].invalidated(),
                ));
            }
            i += 1;
        }
        assert(self@.objects.items =~= old(self)@.invalidated_objects().items);
    }

    /// Whether an object is registered under `id`.
    pub fn has_object(&self, id: &str) -> (b: bool)
        ensures
            b == self@.objects.contains(id@),
    {
        self.objects.contains(id)
    }

    /// The number of objects.
    pub fn object_count(&self) -> (n: usize)
        ensures
            n == self@.objects.len(),
    {
        self.objects.len()
    }

    /// Whether the cached list is current.
    pub fn is_valid(&self) -> (b: bool)
        ensures
            b == self@.valid(),
    {
        self.command_buffers.is_some()
    }

    /// The pipeline as it stands.
    pub fn pipeline(&self) -> (p: Pipeline)
        ensures
            p == self@.pipeline,
    {
        self.pipeline
    }
}

} // verus!
