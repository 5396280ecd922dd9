//! The engine: a scene, the targets it is presented on, and the frame loop's
//! decisions.
//!
//! Each turn of the host loop is a short exchange. The host hands in an
//! event and gets a step back; it carries the step out on the device and
//! reports the outcome, which yields the next step, until the frame is
//! submitted, skipped or given up.

use crate::camera::{CameraConfiguration, CameraData};
use crate::driver::{Acquisition, Event, Flush, FrameDriver, FrameDriverView, Recreation, Step};
use crate::object::share;
use crate::pipeline::{RenderPass, Viewport};
use crate::scene::{submission_views, Scene, SceneView, Submission};
use crate::target::{framebuffers_of, Image};
use std::sync::Arc;
use vstd::prelude::*;

verus! {

/// A scene and what presents it. `F` is the type of the completion handles
/// that the device gives for submitted frames.
pub struct Engine<F> {
    pub scene: Scene,
    pub render_pass: RenderPass,
    pub viewport: Viewport,
    pub driver: FrameDriver<F>,
}

/// The scene after the window took a new size: the camera has the new aspect
/// and a stale payload, every pipeline is made anew for the new viewport, and
/// the submission list is stale.
pub open spec fn resized_scene(
    scene: SceneView,
    aspect: u32,
    render_pass: RenderPass,
    viewport: Viewport,
) -> SceneView {
    scene.with_camera(CameraConfiguration { aspect, ..scene.configuration }, None).with_pipelines(
        render_pass,
        viewport,
    )
}

impl<F> Engine<F> {
    /// The books of the frame loop.
    pub open spec fn pacing(self) -> FrameDriverView<F> {
        self.driver@
    }

    /// An engine with an empty scene, presenting on framebuffers over
    /// `images`, with no frame in flight.
    pub fn new(images: &[Image], render_pass: RenderPass, depth_buffer: Image, viewport: Viewport) -> (r:
        Self)
        ensures
            r.scene@ == Scene::new_view(),
            r.render_pass == render_pass,
            r.viewport == viewport,
            r.pacing() == (FrameDriverView {
                framebuffers: framebuffers_of(images@, render_pass, depth_buffer),
                depth_buffer,
                fences: Seq::new(images@.len(), |i: int| None::<F>),
                previous: 0,
                window_resized: false,
                recreate_swapchain: false,
            }),
    {
        Engine {
            scene: Scene::new(),
            render_pass,
            viewport,
            driver: FrameDriver::new(images, render_pass, depth_buffer),
        }
    }

    /// Takes note of an event and says what to do about it. The scene is not
    /// touched.
    pub fn handle_event(&mut self, event: Event) -> (step: Step)
        ensures
            (final(self).pacing(), step) == old(self).pacing().after_event(event),
            final(self).scene == old(self).scene,
            final(self).render_pass == old(self).render_pass,
            final(self).viewport == old(self).viewport,
    {
        self.driver.handle_event(event)
    }

    /// Takes note of what came of making the targets anew and says what to
    /// do next.
    ///
    /// An extent that the surface does not support is no failure: the frame
    /// is skipped and nothing changes, neither the targets nor the scene nor
    /// any of its caches. Any other failure ends the loop. With new images
    /// the targets are replaced; if the window was resized the viewport
    /// takes the new dimensions, the camera the new aspect, and every
    /// pipeline is made anew; then the frame goes on with the acquisition.
    pub fn swapchain_recreated(&mut self, outcome: Recreation) -> (step: Step)
        ensures
            final(self).render_pass == old(self).render_pass,
            match outcome {
                Recreation::ExtentNotSupported => {
                    &&& step == Step::Skip
                    &&& *final(self) == *old(self)
                },
                Recreation::Failed => {
                    &&& step == Step::Abort
                    &&& *final(self) == *old(self)
                },
                Recreation::Recreated { images, dimensions, aspect } => {
                    &&& step == Step::AcquireImage
                    &&& final(self).pacing() == old(self).pacing().retargeted(
                        images@,
                        old(self).render_pass,
                    )
                    &&& if old(self).pacing().window_resized {
                        &&& final(self).viewport == (Viewport { dimensions, ..old(self).viewport })
                        &&& final(self).scene@ == resized_scene(
                            old(self).scene@,
                            aspect,
                            old(self).render_pass,
                            final(self).viewport,
                        )
                    } else {
                        &&& final(self).viewport == old(self).viewport
                        &&& final(self).scene == old(self).scene
                    }
                },
            },
    {
        match outcome {
            Recreation::ExtentNotSupported => Step::Skip,
            Recreation::Failed => Step::Abort,
            Recreation::Recreated { images, dimensions, aspect } => {
                let resized = self.driver.retarget(images.as_slice(), self.render_pass);
                if resized {
                    self.viewport.dimensions = dimensions;
                    let widen = |c: CameraConfiguration| -> (r: CameraConfiguration)
                        ensures
                            r == (CameraConfiguration { aspect, ..c }),
                        { CameraConfiguration { aspect, ..c } };
                    self.scene.get_camera().update(widen);
                    self.scene.recreate_pipeline(self.render_pass, self.viewport);
                }
                Step::AcquireImage
            },
        }
    }

    /// Takes note of an acquisition and says what to do about it. The scene
    /// is not touched.
    pub fn image_acquired(&mut self, outcome: Acquisition) -> (step: Step)
        ensures
            (final(self).pacing(), step) == old(self).pacing().after_acquisition(outcome),
            final(self).scene == old(self).scene,
            final(self).render_pass == old(self).render_pass,
            final(self).viewport == old(self).viewport,
    {
        self.driver.image_acquired(outcome)
    }

    /// Takes note of the submission for target `image_i` and says what to do
    /// about it. The scene is not touched.
    pub fn frame_submitted(&mut self, image_i: usize, outcome: Flush<F>) -> (step: Step)
        ensures
            (final(self).pacing(), step) == old(self).pacing().after_submission(image_i, outcome),
            final(self).scene == old(self).scene,
            final(self).render_pass == old(self).render_pass,
            final(self).viewport == old(self).viewport,
    {
        self.driver.frame_submitted(image_i, outcome)
    }

    /// The submission for target `image_i`: entry `image_i` of the scene's
    /// submission list, which is rebuilt for the current targets if it is
    /// stale. `None` if the list has no such entry.
    pub fn command_buffer<B: FnOnce(&CameraConfiguration) -> CameraData>(
        &mut self,
        image_i: usize,
        build: B,
    ) -> (submission: Option<Arc<Submission>>)
        requires
            !old(self).scene@.valid() && old(self).scene@.payload is None ==> build.requires(
                (&old(self).scene@.configuration,),
            ),
        ensures
            final(self).pacing() == old(self).pacing(),
            final(self).render_pass == old(self).render_pass,
            final(self).viewport == old(self).viewport,
            final(self).scene@.valid(),
            final(self).scene@.payload is Some,
            final(self).scene@ == old(self).scene@.rebuilt(
                old(self).pacing().framebuffers,
                final(self).scene@.payload->0,
            ),
            !old(self).scene@.valid() && old(self).scene@.payload is None ==> build.ensures(
                (&old(self).scene@.configuration,),
                final(self).scene@.payload->0,
            ),
            ({
                let list = final(self).scene@.submissions->0;
                match submission {
                    Some(s) => image_i < list.len() && s@ == list[image_i as int],
                    None => image_i >= list.len(),
                }
            }),
    {
        let list = self.scene.command_buffers(self.driver.framebuffers(), build);
        if image_i < list.len() {
            Some(share(&list[image_i]))
        } else {
            None
        }
    }

    /// The completion handle that guards target `image_i`, if there is one.
    /// The host waits for it before it submits for that target again.
    pub fn image_fence(&self, image_i: usize) -> (fence: Option<&F>)
        ensures
            image_i < self.pacing().target_count() ==> match fence {
                Some(f) => self.pacing().fences[image_i as int] == Some(*f),
                None => self.pacing().fences[image_i as int] is None,
            },
            image_i >= self.pacing().target_count() ==> fence is None,
    {
        self.driver.image_fence(image_i)
    }

    /// The completion handle of the last frame submitted, if it went
    /// through. The host chains the next submission behind it.
    pub fn previous_fence(&self) -> (fence: Option<&F>)
        ensures
            match fence {
                Some(f) => self.pacing().previous_fence() == Some(*f),
                None => self.pacing().previous_fence() is None,
            },
    {
        self.driver.previous_fence()
    }

    /// The number of presentation targets.
    pub fn target_count(&self) -> (n: usize)
        ensures
            n == self.pacing().target_count(),
    {
        self.driver.target_count()
    }

    /// The number of targets that hold a completion handle. It never exceeds
    /// the number of targets.
    pub fn in_flight(&self) -> (n: usize)
        ensures
            n == self.pacing().in_flight(),
            n <= self.pacing().target_count(),
    {
        self.driver.in_flight()
    }
}

} // verus!
