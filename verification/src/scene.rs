//! The scene: groups by name, one camera, and the cached submission list.

use crate::camera::{Camera, CameraConfiguration, CameraData, ONE};
use crate::group::{share_all, BatchList, Group, GroupView};
use crate::instance::Instance;
use crate::object::{share, DrawBatch, DrawBatchView};
use crate::pipeline::{Pipeline, RenderPass, ShaderModule, Viewport};
use crate::registry::{Entries, Registry};
use crate::target::Framebuffer;
use std::sync::Arc;
use vstd::prelude::*;

verus! {

/// The bit pattern of `0.3`.
pub const GREY: u32 = 0x3e99_999a;

/// The colour every target is cleared to: an opaque dark grey.
pub open spec fn clear_color() -> [u32; 4] {
    [GREY, GREY, GREY, ONE]
}

/// One draw of a submission: a batch and the pipeline it is drawn with.
pub struct Draw {
    pub pipeline: Pipeline,
    pub batch: Arc<DrawBatch>,
}

/// The content of a `Draw`.
pub struct DrawView {
    pub pipeline: Pipeline,
    pub batch: DrawBatchView,
}

impl View for Draw {
    type V = DrawView;

    open spec fn view(&self) -> DrawView {
        DrawView { pipeline: self.pipeline, batch: self.batch@ }
    }
}

/// The content of a list of draws.
pub open spec fn draw_views(draws: Seq<Draw>) -> Seq<DrawView> {
    draws.map_values(|d: Draw| d@)
}

/// The work of one frame on one presentation target: clear colour and depth,
/// bind the camera payload, then the draws in order.
pub struct Submission {
    pub framebuffer: Framebuffer,
    pub clear_color: [u32; 4],
    pub clear_depth: u32,
    pub camera: CameraData,
    pub draws: Vec<Draw>,
}

/// The content of a `Submission`.
pub struct SubmissionView {
    pub framebuffer: Framebuffer,
    pub clear_color: [u32; 4],
    pub clear_depth: u32,
    pub camera: CameraData,
    pub draws: Seq<DrawView>,
}

impl View for Submission {
    type V = SubmissionView;

    open spec fn view(&self) -> SubmissionView {
        SubmissionView {
            framebuffer: self.framebuffer,
            clear_color: self.clear_color,
            clear_depth: self.clear_depth,
            camera: self.camera,
            draws: draw_views(self.draws@),
        }
    }
}

/// The content of a list of shared submissions.
pub open spec fn submission_views(list: Seq<Arc<Submission>>) -> Seq<SubmissionView> {
    list.map_values(|s: Arc<Submission>| s@)
}

/// The draws of one group: each of its batches with the group's pipeline.
pub open spec fn group_draws(group: GroupView) -> Seq<DrawView> {
    Seq::new(
        group.batches().len(),
        |k: int| DrawView { pipeline: group.pipeline, batch: group.batches()[k] },
    )
}

/// The draws of a sequence of groups: those of the first group, then those of
/// the second, and so on.
pub open spec fn draws_of(groups: Seq<GroupView>) -> Seq<DrawView>
    decreases groups.len(),
{
    if groups.len() == 0 {
        Seq::empty()
    } else {
        draws_of(groups.drop_last()) + group_draws(groups.last())
    }
}

/// The draws of the first `g + 1` groups are those of the first `g`, followed
/// by those of group `g`.
pub proof fn lemma_draws_of_next(groups: Seq<GroupView>, g: int)
    requires
        0 <= g < groups.len(),
    ensures
        draws_of(groups.take(g + 1)) == draws_of(groups.take(g)) + group_draws(groups[g]),
{
    assert(groups.take(g + 1).drop_last() =~= groups.take(g));
}

/// Rebuilding the caches of groups does not change what they draw.
pub proof fn lemma_draws_of_rebuilt(groups: Seq<GroupView>)
    ensures
        draws_of(groups.map_values(|g: GroupView| g.rebuilt())) == draws_of(groups),
    decreases groups.len(),
{
    let rebuilt = groups.map_values(|g: GroupView| g.rebuilt());
    if groups.len() > 0 {
        lemma_draws_of_rebuilt(groups.drop_last());
        assert(rebuilt.drop_last() =~= groups.drop_last().map_values(|g: GroupView| g.rebuilt()));
    }
}

/// The content of a `Scene`: its groups by name, the camera's configuration
/// and cached payload, and the cached submission list, `None` while stale.
pub struct SceneView {
    pub groups: Entries<GroupView>,
    pub configuration: CameraConfiguration,
    pub payload: Option<CameraData>,
    pub submissions: Option<Seq<SubmissionView>>,
}

impl SceneView {
    /// Every draw of the scene, group by group in registration order.
    pub open spec fn draws(self) -> Seq<DrawView> {
        draws_of(self.groups.items)
    }

    /// The submission list that a rebuild makes for `framebuffers` with the
    /// camera payload `camera`: one submission per target, all with the same
    /// draws.
    pub open spec fn fresh_submissions(
        self,
        framebuffers: Seq<Framebuffer>,
        camera: CameraData,
    ) -> Seq<SubmissionView> {
        Seq::new(
            framebuffers.len(),
            |t: int|
                SubmissionView {
                    framebuffer: framebuffers[t],
                    clear_color: clear_color(),
                    clear_depth: ONE,
                    camera,
                    draws: self.draws(),
                },
        )
    }

    /// Names are unique, and a cached submission list carries the draws that a
    /// rebuild would make now and the current camera payload, over groups
    /// whose own caches are current.
    pub open spec fn coherent(self) -> bool {
        &&& self.groups.wf()
        &&& self.submissions matches Some(list) ==> {
            &&& self.payload is Some
            &&& forall|t: int|
                0 <= t < list.len() ==> {
                    &&& (#[trigger] list[t]).draws == self.draws()
                    &&& list[t].camera == self.payload->0
                    &&& list[t].clear_color == clear_color()
                    &&& list[t].clear_depth == ONE
                }
            &&& forall|i: int| 0 <= i < self.groups.len() ==> (#[trigger] self.groups.items[i]).valid()
        }
    }

    /// The scene is coherent and every group in it is well formed.
    pub open spec fn wf(self) -> bool {
        &&& self.coherent()
        &&& forall|i: int| 0 <= i < self.groups.len() ==> (#[trigger] self.groups.items[i]).wf()
    }

    /// Whether the cached submission list is current.
    pub open spec fn valid(self) -> bool {
        self.submissions is Some
    }

    /// The camera payload in use after a rebuild in which a stale camera cache
    /// would be filled with `fresh`.
    pub open spec fn payload_after(self, fresh: CameraData) -> CameraData {
        match self.payload {
            Some(data) => data,
            None => fresh,
        }
    }

    /// The groups, each with its batch list rebuilt.
    pub open spec fn rebuilt_groups(self) -> Entries<GroupView> {
        self.groups.map(|g: GroupView| g.rebuilt())
    }

    /// The scene after its submission list was asked for. A current cache
    /// leaves the scene as it is. A stale one is rebuilt for `framebuffers`,
    /// together with every stale cache below it; `fresh` is the payload that
    /// a stale camera cache is filled with.
    pub open spec fn rebuilt(self, framebuffers: Seq<Framebuffer>, fresh: CameraData) -> SceneView {
        if self.valid() {
            self
        } else {
            SceneView {
                groups: self.rebuilt_groups(),
                configuration: self.configuration,
                payload: Some(self.payload_after(fresh)),
                submissions: Some(
                    self.fresh_submissions(framebuffers, self.payload_after(fresh)),
                ),
            }
        }
    }

    /// The scene after a handle on the group `name` was given out and the
    /// group left as `group`: the submission list is stale.
    pub open spec fn with_group(self, name: Seq<char>, group: GroupView) -> SceneView {
        SceneView { groups: self.groups.insert(name, group), submissions: None, ..self }
    }

    /// The scene after a handle on the camera was given out and the camera
    /// left with the given configuration and cache: the submission list is
    /// stale, the groups and everything below them are as they were.
    pub open spec fn with_camera(
        self,
        configuration: CameraConfiguration,
        payload: Option<CameraData>,
    ) -> SceneView {
        SceneView { configuration, payload, submissions: None, ..self }
    }

    /// The scene after every group's pipeline was made anew: the submission
    /// list is stale, the caches below it are as they were.
    pub open spec fn with_pipelines(self, render_pass: RenderPass, viewport: Viewport) -> SceneView {
        SceneView {
            groups: self.groups.map(|g: GroupView| g.with_pipeline(render_pass, viewport)),
            submissions: None,
            ..self
        }
    }

    /// The scene with every cache marked stale, the camera's included.
    pub open spec fn invalidated(self) -> SceneView {
        SceneView {
            groups: self.groups.map(|g: GroupView| g.invalidated()),
            payload: None,
            submissions: None,
            ..self
        }
    }
}

impl SceneView {
    /// Asking twice is rebuilding once. The first request leaves a
    /// well-formed scene well formed and current; a second request, for
    /// whatever targets, changes nothing; and a request on a current scene
    /// changes nothing in the first place.
    pub proof fn lemma_second_request_is_a_hit(
        self,
        framebuffers: Seq<Framebuffer>,
        fresh: CameraData,
        again: Seq<Framebuffer>,
        other: CameraData,
    )
        requires
            self.wf(),
        ensures
            self.rebuilt(framebuffers, fresh).wf(),
            self.rebuilt(framebuffers, fresh).valid(),
            self.rebuilt(framebuffers, fresh).rebuilt(again, other) == self.rebuilt(
                framebuffers,
                fresh,
            ),
            self.valid() ==> self.rebuilt(framebuffers, fresh) == self,
    {
        if !self.valid() {
            let after = self.rebuilt(framebuffers, fresh);
            lemma_draws_of_rebuilt(self.groups.items);
            assert forall|i: int| 0 <= i < after.groups.len() implies (
            #[trigger] after.groups.items[i]).wf() && after.groups.items[i].valid() by {
                self.groups.items[i].lemma_rebuilt();
            }
        }
    }

    /// A change to one instance is felt on the way up and nowhere else. After
    /// a handle on an instance was reached through its group and its object
    /// and the instance left as `left`, the scene, that group and that object
    /// are stale; every other object of the group and every other group is as
    /// it was, its cache included; the camera is as it was.
    pub proof fn lemma_instance_change_is_local(
        self,
        group: Seq<char>,
        object: Seq<char>,
        instance: Seq<char>,
        left: Instance,
    )
        requires
            self.wf(),
            self.groups.contains(group),
            self.groups.get(group).objects.contains(object),
        ensures
            ({
                let g = self.groups.get(group);
                let o = g.objects.get(object);
                let touched = g.with_object(object, o.with_instance(instance, left));
                let after = self.with_group(group, touched);
                &&& after.wf()
                &&& !after.valid()
                &&& after.groups.get(group) == touched
                &&& !touched.valid()
                &&& !touched.objects.get(object).valid()
                &&& touched.objects.get(object).instances.get(instance) == left
                &&& forall|sibling: Seq<char>|
                    sibling != object && g.objects.contains(sibling) ==> #[trigger] touched.objects.get(
                        sibling,
                    ) == g.objects.get(sibling)
                &&& forall|elsewhere: Seq<char>|
                    elsewhere != group && self.groups.contains(elsewhere)
                        ==> #[trigger] after.groups.get(elsewhere) == self.groups.get(elsewhere)
                &&& after.configuration == self.configuration
                &&& after.payload == self.payload
            }),
    {
        let g = self.groups.get(group);
        let o = g.objects.get(object);
        let touched = g.with_object(object, o.with_instance(instance, left));
        let after = self.with_group(group, touched);
        o.lemma_with_instance(instance, left);
        g.lemma_with_object(object, o.with_instance(instance, left));
        self.groups.lemma_insert(group, touched);
        assert forall|i: int| 0 <= i < after.groups.len() implies (
        #[trigger] after.groups.items[i]).wf() by {
            if after.groups.items[i] != touched {
                assert(after.groups.items[i] == self.groups.items[i]);
            }
        }
    }

    /// A change to the camera makes the next request rebuild the submission
    /// list from every group. Once a handle on the camera was given out, the
    /// scene is stale while every group and object is as it was; the next
    /// request asks every group for its batch list, so that every group is
    /// current afterwards, and every target's submission carries all their
    /// draws and the camera payload then in force.
    pub proof fn lemma_camera_change_stales_scene(
        self,
        configuration: CameraConfiguration,
        payload: Option<CameraData>,
        framebuffers: Seq<Framebuffer>,
        fresh: CameraData,
    )
        requires
            self.wf(),
        ensures
            ({
                let moved = self.with_camera(configuration, payload);
                let after = moved.rebuilt(framebuffers, fresh);
                &&& moved.wf()
                &&& !moved.valid()
                &&& moved.groups == self.groups
                &&& after.wf()
                &&& after.valid()
                &&& after.groups == self.rebuilt_groups()
                &&& forall|i: int|
                    0 <= i < self.groups.len() ==> (#[trigger] after.groups.items[i]).valid()
                &&& after.submissions == Some(
                    self.fresh_submissions(framebuffers, moved.payload_after(fresh)),
                )
                &&& forall|t: int|
                    0 <= t < framebuffers.len() ==> {
                        &&& (#[trigger] after.submissions->0[t]).draws == self.draws()
                        &&& after.submissions->0[t].framebuffer == framebuffers[t]
                        &&& after.submissions->0[t].camera == moved.payload_after(fresh)
                    }
            }),
    {
        let moved = self.with_camera(configuration, payload);
        moved.lemma_second_request_is_a_hit(framebuffers, fresh, framebuffers, fresh);
        let after = moved.rebuilt(framebuffers, fresh);
        assert forall|i: int| 0 <= i < self.groups.len() implies (
        #[trigger] after.groups.items[i]).valid() by {
            self.groups.items[i].lemma_rebuilt();
        }
    }
}

/// Appends the draws of one group's batch list to `draws`.
fn append_draws(draws: &mut Vec<Draw>, list: &BatchList)
    ensures
        draw_views(final(draws)@) == draw_views(old(draws)@) + Seq::new(
            list.batches@.len(),
            |k: int| DrawView { pipeline: list.pipeline, batch: list.batches@[k]@ },
        ),
{
    let ghost added = Seq::new(
        list.batches@.len(),
        |k: int| DrawView { pipeline: list.pipeline, batch: list.batches@[k]@ },
    );
    let mut k: usize = 0;
    while k < list.batches.len()
        invariant
            k <= list.batches.len(),
            added == Seq::new(
                list.batches@.len(),
                |k: int| DrawView { pipeline: list.pipeline, batch: list.batches@[k]@ },
            ),
            draws@.len() == old(draws)@.len() + k,
            draw_views(draws@) == draw_views(old(draws)@) + added.take(k as int),
        decreases list.batches.len() - k,
    {
        let ghost listed = draws@;
        draws.push(Draw { pipeline: list.pipeline, batch: share(&list.batches[k]) });
        proof {
            let target = draw_views(old(draws)@) + added.take(k + 1);
            assert forall|n: int| 0 <= n < target.len() implies draw_views(draws@)[n]
                == target[n] by {
                if n < listed.len() {
                    assert(draw_views(listed)[n] == (draw_views(old(draws)@) + added.take(
                        k as int,
                    ))[n]);
                }
            }
        }
        k += 1;
    }
}

/// A copy of `draws` that shares every batch with it.
fn copy_draws(draws: &Vec<Draw>) -> (copy: Vec<Draw>)
    ensures
        draw_views(copy@) == draw_views(draws@),
{
    let mut copy: Vec<Draw> = Vec::new();
    let mut k: usize = 0;
    while k < draws.len()
        invariant
            k <= draws.len(),
            copy@.len() == k,
            forall|n: int| 0 <= n < k ==> (#[trigger] copy@[n])@ == draws@[n]@,
        decreases draws.len() - k,
    {
        copy.push(Draw { pipeline: draws[k].pipeline, batch: share(&draws[k].batch) });
        k += 1;
    }
    copy
}

/// The handle it is given.
fn reborrow<T>(place: &mut T) -> (handle: &mut T)
    ensures
        *handle == *old(place),
        *final(place) == *final(handle),
    no_unwind
{
    place
}

/// Groups by name, the camera, and the cached submission list.
pub struct Scene {
    groups: Registry<Group>,
    camera: Camera,
    command_buffers: Option<Vec<Arc<Submission>>>,
}

/// The function that takes a group to its content.
pub open spec fn group_view() -> spec_fn(Group) -> GroupView {
    |g: Group| g@
}

impl View for Scene {
    type V = SceneView;

    closed spec fn view(&self) -> SceneView {
        SceneView {
            groups: self.groups@.map(group_view()),
            configuration: self.camera.config(),
            payload: self.camera.cached(),
            submissions: match self.command_buffers {
                Some(list) => Some(submission_views(list@)),
                None => None,
            },
        }
    }
}

impl Scene {
    #[verifier::type_invariant]
    pub closed spec fn wf(self) -> bool {
        self@.coherent()
    }

    /// The content of a new scene: no groups, the camera in its initial
    /// configuration, every cache stale.
    pub open spec fn new_view() -> SceneView {
        SceneView {
            groups: Entries::empty(),
            configuration: CameraConfiguration::initial(),
            payload: None,
            submissions: None,
        }
    }

    /// A scene without groups, with the camera in its initial configuration
    /// and every cache stale.
    pub fn new() -> (r: Self)
        ensures
            r@ == Scene::new_view(),
    {
        let groups = Registry::new();
        assert(groups@.map(group_view()).items =~= Seq::empty());
        Scene { groups, camera: Camera::new(), command_buffers: None }
    }

    /// Registers a new group under `id`, replacing an earlier one of that
    /// name, and hands out a handle on it. The submission list is stale from
    /// here on.
    pub fn create_group(
        &mut self,
        id: &str,
        vertex_shader: ShaderModule,
        fragment_shader: ShaderModule,
        render_pass: RenderPass,
        viewport: Viewport,
    ) -> (group: &mut Group)
        ensures
            group@ == (GroupView {
                objects: Entries::empty(),
                vertex_shader,
                fragment_shader,
                pipeline: Pipeline::forward(vertex_shader, fragment_shader, render_pass, viewport),
                list: None,
            }),
            final(self)@ == old(self)@.with_group(id@, final(group)@),
    {
        proof {
            use_type_invariant(&*self);
        }
        self.command_buffers = None;
        let mut groups = Registry::new();
        core::mem::swap(&mut self.groups, &mut groups);
        let fresh = Group::new(vertex_shader, fragment_shader, render_pass, viewport);
        let ghost before = groups@;
        let i = groups.insert(id, fresh);
        let ghost inserted = groups@;
        core::mem::swap(&mut self.groups, &mut groups);
        let handle = self.groups.get_mut(i);
        proof {
            before.lemma_insert(id@, fresh);
            before.lemma_map_insert(group_view(), id@, fresh);
            inserted.lemma_map_set(group_view(), i as int, *final(handle));
            old(self)@.groups.lemma_insert_set(id@, fresh@, final(handle)@);
        }
        handle
    }

    /// A handle on the group registered under `id`. Handing it out marks the
    /// submission list stale, whatever the handle is then used for.
    pub fn get_group(&mut self, id: &str) -> (group: &mut Group)
        requires
            old(self)@.groups.contains(id@),
        ensures
            group@ == old(self)@.groups.get(id@),
            final(self)@ == old(self)@.with_group(id@, final(group)@),
    {
        self.invalidate();
        let ghost before = self.groups@;
        let found = self.groups.position(id);
        let handle = self.groups.get_mut(found.unwrap());
        proof {
            before.lemma_map_set(group_view(), before.index_of(id@), *final(handle));
        }
        handle
    }

    /// A handle on the camera. Handing it out marks the submission list
    /// stale, whatever the handle is then used for; the caches of the groups
    /// and of their objects stay as they are.
    pub fn get_camera(&mut self) -> (camera: &mut Camera)
        ensures
            camera.config() == old(self)@.configuration,
            camera.cached() == old(self)@.payload,
            final(self)@ == old(self)@.with_camera(final(camera).config(), final(camera).cached()),
    {
        self.invalidate();
        reborrow(&mut self.camera)
    }

    /// Makes the pipeline of every group anew for another render pass and
    /// viewport. The submission list, which names the pipelines, is stale
    /// from here on; the caches below it are not touched.
    pub fn recreate_pipeline(&mut self, render_pass: RenderPass, viewport: Viewport)
        ensures
            final(self)@ == old(self)@.with_pipelines(render_pass, viewport),
    {
        self.invalidate();
        let count = self.groups.len();
        let mut i: usize = 0;
        while i < count
            invariant
                i <= count,
                count == old(self)@.groups.len(),
                old(self)@.coherent(),
                self@.submissions is None,
                self@.configuration == old(self)@.configuration,
                self@.payload == old(self)@.payload,
                self@.groups.names == old(self)@.groups.names,
                self@.groups.items.len() == count,
                forall|j: int|
                    0 <= j < i ==> #[trigger] self@.groups.items[j] == old(
                        self,
                    )@.groups.items[j].with_pipeline(render_pass, viewport),
                forall|j: int|
                    i <= j < count ==> #[trigger] self@.groups.items[j] == old(
                        self,
                    )@.groups.items[j],
            decreases count - i,
        {
            let ghost before = self.groups@;
            let ghost seen = self@;
            let group = self.groups.get_mut(i);
            group.recreate_pipeline(render_pass, viewport);
            proof {
                before.lemma_map_set(group_view(), i as int, self.groups@.items[i as int]);
                assert(self@.groups == seen.groups.set(
                    i as int,
                    seen.groups.items[i as int].with_pipeline(render_pass, viewport),
                ));
            }
            i += 1;
        }
        assert(self@.groups.items =~= old(self)@.with_pipelines(
            render_pass,
            viewport,
        ).groups.items);
    }

    /// Marks every cache stale: the submission list, the camera payload, the
    /// batch list of every group and the batch of every object.
    pub fn invalidate_all(&mut self)
        ensures
            final(self)@ == old(self)@.invalidated(),
    {
        self.invalidate();
        self.camera.invalidate();
        let count = self.groups.len();
        let mut i: usize = 0;
        while i < count
            invariant
                i <= count,
                count == old(self)@.groups.len(),
                old(self)@.coherent(),
                self@.submissions is None,
                self@.configuration == old(self)@.configuration,
                self@.payload is None,
                self@.groups.names == old(self)@.groups.names,
                self@.groups.items.len() == count,
                forall|j: int|
                    0 <= j < i ==> #[trigger] self@.groups.items[j] == old(
                        self,
                    )@.groups.items[j].invalidated(),
                forall|j: int|
                    i <= j < count ==> #[trigger] self@.groups.items[j] == old(
                        self,
                    )@.groups.items[j],
            decreases count - i,
        {
            let ghost before = self.groups@;
            let ghost seen = self@;
            let group = self.groups.get_mut(i);
            group.invalidate();
            proof {
                before.lemma_map_set(group_view(), i as int, self.groups@.items[i as int]);
                assert(self@.groups == seen.groups.set(
                    i as int,
                    seen.groups.items[i as int].invalidated(),
                ));
            }
            i += 1;
        }
        assert(self@.groups.items =~= old(self)@.invalidated().groups.items);
    }

    /// The submission list: for every presentation target the draws of all
    /// groups, in registration order. A current cache is handed out as it is,
    /// `build` does not run and nothing below is visited. A stale one is
    /// rebuilt for `framebuffers`: the camera payload is taken from the
    /// camera's cache, which `build` fills if it is stale, and every group is
    /// asked for its batch list.
    pub fn command_buffers<B: FnOnce(&CameraConfiguration) -> CameraData>(
        &mut self,
        framebuffers: &[Framebuffer],
        build: B,
    ) -> (list: Vec<Arc<Submission>>)
        requires
            !old(self)@.valid() && old(self)@.payload is None ==> build.requires(
                (&old(self)@.configuration,),
            ),
        ensures
            old(self)@.coherent(),
            final(self)@.valid(),
            final(self)@.payload is Some,
            submission_views(list@) == final(self)@.submissions->0,
            list@.len() == final(self)@.submissions->0.len(),
            final(self)@ == old(self)@.rebuilt(framebuffers@, final(self)@.payload->0),
            !old(self)@.valid() && old(self)@.payload is None ==> build.ensures(
                (&old(self)@.configuration,),
                final(self)@.payload->0,
            ),
    {
        proof {
            use_type_invariant(&*self);
        }
        if let Some(cached) = &self.command_buffers {
            return share_all(cached);
        }
        let data = match self.camera.payload() {
            Some(data) => data,
            None => {
                let data = build(&self.camera.configuration());
                self.camera.store(data);
                data
            },
        };

        let count = self.groups.len();
        let mut draws: Vec<Draw> = Vec::new();
        let mut g: usize = 0;
        while g < count
            invariant
                g <= count,
                count == old(self)@.groups.len(),
                old(self)@.coherent(),
                self@.submissions is None,
                self@.configuration == old(self)@.configuration,
                self@.payload == Some(data),
                self@.groups.names == old(self)@.groups.names,
                self@.groups.items.len() == count,
                forall|j: int|
                    0 <= j < g ==> #[trigger] self@.groups.items[j] == old(
                        self,
                    )@.groups.items[j].rebuilt(),
                forall|j: int|
                    g <= j < count ==> #[trigger] self@.groups.items[j] == old(
                        self,
                    )@.groups.items[j],
                draw_views(draws@) == draws_of(old(self)@.groups.items.take(g as int)),
            decreases count - g,
        {
            let ghost before = self.groups@;
            let ghost seen = self@;
            let group = self.groups.get_mut(g);
            let batches = group.command_buffers();
            proof {
                before.lemma_map_set(group_view(), g as int, self.groups@.items[g as int]);
                assert(self@.groups == seen.groups.set(
                    g as int,
                    seen.groups.items[g as int].rebuilt(),
                ));
            }
            append_draws(&mut draws, &batches);
            proof {
                let stale = old(self)@.groups.items[g as int];
                lemma_draws_of_next(old(self)@.groups.items, g as int);
                assert(Seq::new(
                    batches.batches@.len(),
                    |k: int| DrawView { pipeline: batches.pipeline, batch: batches.batches@[k]@ },
                ) =~= group_draws(stale)) by {
                    assert(crate::group::batch_views(batches.batches@) == stale.batches());
                }
            }
            g += 1;
        }
        proof {
            assert(old(self)@.groups.items.take(count as int) =~= old(self)@.groups.items);
            assert(self@.groups.items =~= old(self)@.rebuilt_groups().items);
            lemma_draws_of_rebuilt(old(self)@.groups.items);
        }
        let mut submissions: Vec<Arc<Submission>> = Vec::new();
        let ghost target = old(self)@.fresh_submissions(framebuffers@, data);
        let mut t: usize = 0;
        while t < framebuffers.len()
            invariant
                t <= framebuffers.len(),
                target == old(self)@.fresh_submissions(framebuffers@, data),
                draw_views(draws@) == old(self)@.draws(),
                submissions@.len() == t,
                forall|n: int| 0 <= n < t ==> (#[trigger] submissions@[n])@ == target[n],
            decreases framebuffers.len() - t,
        {
            let submission = Submission {
                framebuffer: framebuffers[t],
                clear_color: [GREY, GREY, GREY, ONE],
                clear_depth: ONE,
                camera: data,
                draws: copy_draws(&draws),
            };
            submissions.push(Arc::new(submission));
            t += 1;
        }
        assert(submission_views(submissions@) =~= target);
        let list = share_all(&submissions);
        self.command_buffers = Some(submissions);
        list
    }

    /// Whether a group is registered under `id`.
    pub fn has_group(&self, id: &str) -> (b: bool)
        ensures
            b == self@.groups.contains(id@),
    {
        self.groups.contains(id)
    }

    /// The number of groups.
    pub fn group_count(&self) -> (n: usize)
        ensures
            n == self@.groups.len(),
    {
        self.groups.len()
    }

    /// Whether the cached submission list is current.
    pub fn is_valid(&self) -> (b: bool)
        ensures
            b == self@.valid(),
    {
        self.command_buffers.is_some()
    }

    /// Marks the submission list stale.
    fn invalidate(&mut self)
        ensures
            final(self)@ == (SceneView { submissions: None, ..old(self)@ }),
            old(self)@.coherent(),
    {
        proof {
            use_type_invariant(&*self);
        }
        self.command_buffers = None;
    }
}

} // verus!
