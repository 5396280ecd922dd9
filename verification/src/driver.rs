//! Frame pacing: which step of a frame comes next, and which completion
//! handle guards which presentation target.
//!
//! The driver never talks to the device. The host loop does, and reports what
//! came of it; the driver keeps the books and says what to do next.

use crate::pipeline::RenderPass;
use crate::target::{create_framebuffers, framebuffers_of, Framebuffer, Image};
use vstd::prelude::*;

verus! {

/// What the host's event source delivered.
#[derive(Clone, Copy, Debug, PartialEq, Eq, Structural)]
pub enum Event {
    /// The window is to be closed.
    CloseRequested,
    /// The window has a new size.
    Resized,
    /// All pending events were delivered: time for a frame.
    MainEventsCleared,
    /// Anything else.
    Other,
}

/// What came of making the presentation targets anew.
pub enum Recreation {
    /// There is a new set of images. `dimensions` is the new extent as the
    /// viewport holds it and `aspect` its width over its height, both as
    /// IEEE-754 single-precision bit patterns.
    Recreated { images: Vec<Image>, dimensions: [u32; 2], aspect: u32 },
    /// The surface does not support the extent asked for. This passes.
    ExtentNotSupported,
    /// Anything else went wrong.
    Failed,
}

/// What came of asking for the next presentation target.
#[derive(Clone, Copy, Debug, PartialEq, Eq, Structural)]
pub enum Acquisition {
    /// Target `image_i` is ours; `suboptimal` says that the targets still
    /// work but no longer match the surface.
    Acquired { image_i: usize, suboptimal: bool },
    /// The targets no longer fit the surface.
    OutOfDate,
    /// Anything else went wrong.
    Failed,
}

/// What came of submitting a frame and asking for its presentation.
pub enum Flush<F> {
    /// The frame is on its way; the handle signals its completion.
    Flushed(F),
    /// The targets no longer fit the surface.
    OutOfDate,
    /// Anything else went wrong.
    Failed,
}

/// What the host loop has to do next.
#[derive(Clone, Copy, Debug, PartialEq, Eq, Structural)]
pub enum Step {
    /// Leave the loop.
    Exit,
    /// Nothing to do for this event.
    Idle,
    /// Make the presentation targets anew at the window's size and report
    /// with `swapchain_recreated`.
    RecreateSwapchain,
    /// Ask for the next presentation target and report with
    /// `image_acquired`.
    AcquireImage,
    /// Wait for the handle that guards target `image_i`, if there is one,
    /// then submit the frame for that target behind the previous frame and
    /// the acquisition, ask for its presentation and report with
    /// `frame_submitted`.
    Submit { image_i: usize },
    /// This frame is dropped; the next one may fare better.
    Skip,
    /// Give up.
    Abort,
}

/// How many of the slots hold a handle.
pub open spec fn held<F>(fences: Seq<Option<F>>) -> nat
    decreases fences.len(),
{
    if fences.len() == 0 {
        0
    } else {
        held(fences.drop_last()) + if fences.last() is Some {
            1nat
        } else {
            0nat
        }
    }
}

/// No more handles are held than there are slots.
pub proof fn lemma_held_bounded<F>(fences: Seq<Option<F>>)
    ensures
        held(fences) <= fences.len(),
    decreases fences.len(),
{
    if fences.len() > 0 {
        lemma_held_bounded(fences.drop_last());
    }
}

/// The content of a `FrameDriver`.
pub struct FrameDriverView<F> {
    /// The presentation targets.
    pub framebuffers: Seq<Framebuffer>,
    /// The depth buffer that all targets share.
    pub depth_buffer: Image,
    /// For each target, the completion handle of the last frame submitted
    /// for it, if that submission went through.
    pub fences: Seq<Option<F>>,
    /// The target of the last frame submitted.
    pub previous: nat,
    /// The window was resized since the targets were last made.
    pub window_resized: bool,
    /// The targets were found out of date or suboptimal.
    pub recreate_swapchain: bool,
}

impl<F> FrameDriverView<F> {
    /// There is one slot per presentation target.
    pub open spec fn wf(self) -> bool {
        self.fences.len() == self.framebuffers.len()
    }

    /// The number of presentation targets.
    pub open spec fn target_count(self) -> nat {
        self.framebuffers.len()
    }

    /// The number of targets that hold a completion handle.
    pub open spec fn in_flight(self) -> nat {
        held(self.fences)
    }

    /// The handle that the next submission is chained behind: that of the
    /// last frame submitted, if it went through.
    pub open spec fn previous_fence(self) -> Option<F> {
        if self.previous < self.fences.len() {
            self.fences[self.previous as int]
        } else {
            None
        }
    }

    /// The driver after an event, and the step it asks for. A frame starts
    /// with new targets if a resize or an out-of-date report is pending, and
    /// with the acquisition otherwise.
    pub open spec fn after_event(self, event: Event) -> (Self, Step) {
        match event {
            Event::CloseRequested => (self, Step::Exit),
            Event::Resized => (FrameDriverView { window_resized: true, ..self }, Step::Idle),
            Event::MainEventsCleared => if self.window_resized || self.recreate_swapchain {
                (FrameDriverView { recreate_swapchain: false, ..self }, Step::RecreateSwapchain)
            } else {
                (self, Step::AcquireImage)
            },
            Event::Other => (self, Step::Idle),
        }
    }

    /// The slots after the targets were replaced by `count` new ones: as they
    /// were if the count is the same, all empty otherwise.
    pub open spec fn slots_for(self, count: nat) -> Seq<Option<F>> {
        if count == self.fences.len() {
            self.fences
        } else {
            Seq::new(count, |i: int| None)
        }
    }

    /// The driver with its targets replaced by framebuffers over `images`.
    /// A pending resize is taken note of as done.
    pub open spec fn retargeted(self, images: Seq<Image>, render_pass: RenderPass) -> Self {
        FrameDriverView {
            framebuffers: framebuffers_of(images, render_pass, self.depth_buffer),
            fences: self.slots_for(images.len()),
            previous: if images.len() == self.fences.len() {
                self.previous
            } else {
                0
            },
            window_resized: false,
            ..self
        }
    }

    /// The driver after an acquisition was reported, and the step it asks
    /// for.
    pub open spec fn after_acquisition(self, outcome: Acquisition) -> (Self, Step) {
        match outcome {
            Acquisition::Acquired { image_i, suboptimal } => {
                let noted = FrameDriverView {
                    recreate_swapchain: self.recreate_swapchain || suboptimal,
                    ..self
                };
                if image_i < self.fences.len() {
                    (noted, Step::Submit { image_i })
                } else {
                    (noted, Step::Abort)
                }
            },
            Acquisition::OutOfDate => (
                FrameDriverView { recreate_swapchain: true, ..self },
                Step::Skip,
            ),
            Acquisition::Failed => (self, Step::Abort),
        }
    }

    /// The driver after the submission for target `image_i` was reported, and
    /// the step it asks for. The slot of that target holds the new handle, or
    /// nothing if there is none; that target is now the previous one.
    pub open spec fn after_submission(self, image_i: usize, outcome: Flush<F>) -> (Self, Step) {
        if image_i < self.fences.len() {
            match outcome {
                Flush::Flushed(fence) => (
                    FrameDriverView {
                        fences: self.fences.update(image_i as int, Some(fence)),
                        previous: image_i as nat,
                        ..self
                    },
                    Step::Idle,
                ),
                Flush::OutOfDate => (
                    FrameDriverView {
                        fences: self.fences.update(image_i as int, None),
                        previous: image_i as nat,
                        recreate_swapchain: true,
                        ..self
                    },
                    Step::Idle,
                ),
                Flush::Failed => (
                    FrameDriverView {
                        fences: self.fences.update(image_i as int, None),
                        previous: image_i as nat,
                        ..self
                    },
                    Step::Abort,
                ),
            }
        } else {
            (self, Step::Abort)
        }
    }

    /// Whatever is reported in whatever order, there is one slot per target
    /// and never more frames in flight than targets.
    pub proof fn lemma_bounded_in_flight(
        self,
        event: Event,
        images: Seq<Image>,
        render_pass: RenderPass,
        acquisition: Acquisition,
        image_i: usize,
        flush: Flush<F>,
    )
        requires
            self.wf(),
        ensures
            self.in_flight() <= self.target_count(),
            self.after_event(event).0.wf(),
            self.after_event(event).0.target_count() == self.target_count(),
            self.retargeted(images, render_pass).wf(),
            self.retargeted(images, render_pass).target_count() == images.len(),
            self.after_acquisition(acquisition).0.wf(),
            self.after_acquisition(acquisition).0.target_count() == self.target_count(),
            self.after_submission(image_i, flush).0.wf(),
            self.after_submission(image_i, flush).0.target_count() == self.target_count(),
            self.after_submission(image_i, flush).0.in_flight() <= self.target_count(),
    {
        lemma_held_bounded(self.fences);
        lemma_held_bounded(self.after_submission(image_i, flush).0.fences);
    }
}

/// The books of the frame loop.
pub struct FrameDriver<F> {
    framebuffers: Vec<Framebuffer>,
    depth_buffer: Image,
    fences: Vec<Option<F>>,
    previous_fence_i: usize,
    window_resized: bool,
    recreate_swapchain: bool,
}

impl<F> View for FrameDriver<F> {
    type V = FrameDriverView<F>;

    closed spec fn view(&self) -> FrameDriverView<F> {
        FrameDriverView {
            framebuffers: self.framebuffers@,
            depth_buffer: self.depth_buffer,
            fences: self.fences@,
            previous: self.previous_fence_i as nat,
            window_resized: self.window_resized,
            recreate_swapchain: self.recreate_swapchain,
        }
    }
}

/// `count` empty slots.
fn empty_slots<F>(count: usize) -> (slots: Vec<Option<F>>)
    ensures
        slots@ == Seq::new(count as nat, |i: int| None::<F>),
{
    let mut slots: Vec<Option<F>> = Vec::new();
    let mut i: usize = 0;
    while i < count
        invariant
            i <= count,
            slots@.len() == i,
            forall|j: int| 0 <= j < i ==> slots@[j] is None,
        decreases count - i,
    {
        slots.push(None);
        i += 1;
    }
    slots
}

impl<F> FrameDriver<F> {
    #[verifier::type_invariant]
    pub closed spec fn wf(self) -> bool {
        self@.wf()
    }

    /// A driver for framebuffers over `images`, with no frame in flight and
    /// nothing pending.
    pub fn new(images: &[Image], render_pass: RenderPass, depth_buffer: Image) -> (r: Self)
        ensures
            r@ == (FrameDriverView {
                framebuffers: framebuffers_of(images@, render_pass, depth_buffer),
                depth_buffer,
                fences: Seq::new(images@.len(), |i: int| None::<F>),
                previous: 0,
                window_resized: false,
                recreate_swapchain: false,
            }),
    {
        FrameDriver {
            framebuffers: create_framebuffers(images, render_pass, depth_buffer),
            depth_buffer,
            fences: empty_slots(images.len()),
            previous_fence_i: 0,
            window_resized: false,
            recreate_swapchain: false,
        }
    }

    /// Takes note of an event and says what to do about it.
    pub fn handle_event(&mut self, event: Event) -> (step: Step)
        ensures
            (final(self)@, step) == old(self)@.after_event(event),
    {
        proof {
            use_type_invariant(&*self);
        }
        match event {
            Event::CloseRequested => Step::Exit,
            Event::Resized => {
                self.window_resized = true;
                Step::Idle
            },
            Event::MainEventsCleared => {
                if self.window_resized || self.recreate_swapchain {
                    self.recreate_swapchain = false;
                    Step::RecreateSwapchain
                } else {
                    Step::AcquireImage
                }
            },
            Event::Other => Step::Idle,
        }
    }

    /// Replaces the targets by framebuffers over `images`. With as many
    /// images as before the completion handles stay in their slots; with
    /// another number every slot starts empty. Returns whether a resize was
    /// pending, which it no longer is.
    pub fn retarget(&mut self, images: &[Image], render_pass: RenderPass) -> (resized: bool)
        ensures
            resized == old(self)@.window_resized,
            final(self)@ == old(self)@.retargeted(images@, render_pass),
    {
        proof {
            use_type_invariant(&*self);
        }
        let resized = self.window_resized;
        let framebuffers = create_framebuffers(images, render_pass, self.depth_buffer);
        if images.len() == self.fences.len() {
            self.framebuffers = framebuffers;
            self.window_resized = false;
        } else {
            let slots = empty_slots(images.len());
            *self =
            FrameDriver {
                framebuffers,
                depth_buffer: self.depth_buffer,
                fences: slots,
                previous_fence_i: 0,
                window_resized: false,
                recreate_swapchain: self.recreate_swapchain,
            };
        }
        resized
    }

    /// Takes note of an acquisition and says what to do about it. A target
    /// that is out of date is no failure: the frame is skipped and the
    /// targets are made anew before the next one. A target index for which
    /// there is no slot ends the loop.
    pub fn image_acquired(&mut self, outcome: Acquisition) -> (step: Step)
        ensures
            (final(self)@, step) == old(self)@.after_acquisition(outcome),
    {
        proof {
            use_type_invariant(&*self);
        }
        match outcome {
            Acquisition::Acquired { image_i, suboptimal } => {
                if suboptimal {
                    self.recreate_swapchain = true;
                }
                if image_i < self.fences.len() {
                    Step::Submit { image_i }
                } else {
                    Step::Abort
                }
            },
            Acquisition::OutOfDate => {
                self.recreate_swapchain = true;
                Step::Skip
            },
            Acquisition::Failed => Step::Abort,
        }
    }

    /// Takes note of the submission for target `image_i` and says what to do
    /// about it. The target's slot takes the new completion handle in place
    /// of the one that was waited for. Targets that went out of date are made
    /// anew before the next frame; any other failure ends the loop.
    pub fn frame_submitted(&mut self, image_i: usize, outcome: Flush<F>) -> (step: Step)
        ensures
            (final(self)@, step) == old(self)@.after_submission(image_i, outcome),
    {
        proof {
            use_type_invariant(&*self);
        }
        if image_i >= self.fences.len() {
            return Step::Abort;
        }
        self.previous_fence_i = image_i;
        match outcome {
            Flush::Flushed(fence) => {
                self.fences[image_i] = Some(fence);
                Step::Idle
            },
            Flush::OutOfDate => {
                self.fences[image_i] = None;
                self.recreate_swapchain = true;
                Step::Idle
            },
            Flush::Failed => {
                self.fences[image_i] = None;
                Step::Abort
            },
        }
    }

    /// The completion handle that guards target `image_i`, if a frame was
    /// submitted for it and went through.
    pub fn image_fence(&self, image_i: usize) -> (fence: Option<&F>)
        ensures
            image_i < self@.target_count() ==> match fence {
                Some(f) => self@.fences[image_i as int] == Some(*f),
                None => self@.fences[image_i as int] is None,
            },
            image_i >= self@.target_count() ==> fence is None,
    {
        proof {
            use_type_invariant(self);
        }
        if image_i < self.fences.len() {
            self.fences[image_i].as_ref()
        } else {
            None
        }
    }

    /// The completion handle of the last frame submitted, if it went through.
    pub fn previous_fence(&self) -> (fence: Option<&F>)
        ensures
            match fence {
                Some(f) => self@.previous_fence() == Some(*f),
                None => self@.previous_fence() is None,
            },
    {
        proof {
            use_type_invariant(self);
        }
        if self.previous_fence_i < self.fences.len() {
            self.fences[self.previous_fence_i].as_ref()
        } else {
            None
        }
    }

    /// The presentation targets.
    pub fn framebuffers(&self) -> (targets: &[Framebuffer])
        ensures
            targets@ == self@.framebuffers,
    {
        self.framebuffers.as_slice()
    }

    /// The number of presentation targets, which is the number of slots.
    pub fn target_count(&self) -> (n: usize)
        ensures
            n == self@.target_count(),
            n == self@.fences.len(),
    {
        proof {
            use_type_invariant(self);
        }
        self.framebuffers.len()
    }

    /// The number of targets that hold a completion handle. It never exceeds
    /// the number of targets.
    pub fn in_flight(&self) -> (n: usize)
        ensures
            n == self@.in_flight(),
            n <= self@.target_count(),
    {
        proof {
            use_type_invariant(self);
        }
        let mut n: usize = 0;
        let mut i: usize = 0;
        while i < self.fences.len()
            invariant
                i <= self.fences.len(),
                n == held(self.fences@.take(i as int)),
                n <= i,
            decreases self.fences.len() - i,
        {
            proof {
                assert(self.fences@.take(i + 1).drop_last() =~= self.fences@.take(i as int));
            }
            if self.fences[i].is_some() {
                n += 1;
            }
            i += 1;
        }
        assert(self.fences@.take(i as int) =~= self.fences@);
        n
    }
}

} // verus!
