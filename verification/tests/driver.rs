use render_scene::camera::{CameraConfiguration, CameraData};
use render_scene::driver::{Acquisition, Event, Flush, FrameDriver, Recreation, Step};
use render_scene::engine::Engine;
use render_scene::mesh::Mesh;
use render_scene::pipeline::{RenderPass, ShaderModule, Viewport};
use render_scene::target::{create_framebuffers, Framebuffer, Image};
use std::sync::Arc;

fn images(n: u64) -> Vec<Image> {
    (0..n).map(Image).collect()
}

fn viewport() -> Viewport {
    Viewport { origin: [0, 0], dimensions: [0x44800000, 0x44800000], depth_range: [0, 0x3f800000] }
}

fn payload(c: &CameraConfiguration) -> CameraData {
    CameraData { view: [c.aspect; 16], projection: [0; 16] }
}

fn engine(targets: u64) -> Engine<u32> {
    let mut engine = Engine::new(&images(targets), RenderPass(1), Image(99), viewport());
    engine
        .scene
        .create_group("basic", ShaderModule(1), ShaderModule(2), RenderPass(1), viewport())
        .create_object("cube", Mesh { vertices: vec![], indices: vec![0, 1, 2] })
        .create_instance("0");
    engine
}

#[test]
fn framebuffers_pair_each_image_with_the_depth_buffer() {
    let made = create_framebuffers(&images(3), RenderPass(4), Image(9));
    assert_eq!(
        made,
        vec![
            Framebuffer { render_pass: RenderPass(4), color: Image(0), depth: Image(9) },
            Framebuffer { render_pass: RenderPass(4), color: Image(1), depth: Image(9) },
            Framebuffer { render_pass: RenderPass(4), color: Image(2), depth: Image(9) },
        ]
    );
    assert!(create_framebuffers(&[], RenderPass(4), Image(9)).is_empty());
}

#[test]
fn events_set_the_course_of_the_frame() {
    let mut driver: FrameDriver<u32> = FrameDriver::new(&images(2), RenderPass(1), Image(9));
    assert_eq!(driver.handle_event(Event::Other), Step::Idle);
    assert_eq!(driver.handle_event(Event::MainEventsCleared), Step::AcquireImage);
    assert_eq!(driver.handle_event(Event::Resized), Step::Idle);
    assert_eq!(driver.handle_event(Event::MainEventsCleared), Step::RecreateSwapchain);
    assert!(driver.retarget(&images(2), RenderPass(1)));
    assert_eq!(driver.handle_event(Event::MainEventsCleared), Step::AcquireImage);
    assert_eq!(driver.handle_event(Event::CloseRequested), Step::Exit);
}

#[test]
fn bounded_in_flight() {
    let mut engine = engine(3);
    assert_eq!(engine.target_count(), 3);
    assert_eq!(engine.in_flight(), 0);
    let mut waited = 0;
    for tick in 0..20u32 {
        assert_eq!(engine.handle_event(Event::MainEventsCleared), Step::AcquireImage);
        let image_i = (tick as usize * 2) % 3;
        let step = engine.image_acquired(Acquisition::Acquired { image_i, suboptimal: false });
        assert_eq!(step, Step::Submit { image_i });
        if engine.image_fence(image_i).is_some() {
            waited += 1;
        }
        if tick == 0 {
            assert!(engine.previous_fence().is_none());
        } else {
            assert_eq!(engine.previous_fence(), Some(&(tick - 1)));
        }
        assert!(engine.command_buffer(image_i, payload).is_some());
        assert_eq!(engine.frame_submitted(image_i, Flush::Flushed(tick)), Step::Idle);
        assert_eq!(engine.image_fence(image_i), Some(&tick));
        assert!(engine.in_flight() <= 3);
        assert_eq!(engine.in_flight(), std::cmp::min(tick as usize + 1, 3));
    }
    assert_eq!(waited, 17);
}

#[test]
fn resize_recovery() {
    let mut engine = engine(3);
    let before = engine.command_buffer(0, payload).unwrap();
    assert!(engine.scene.is_valid());
    assert_eq!(engine.frame_submitted(1, Flush::Flushed(7)), Step::Idle);

    assert_eq!(engine.handle_event(Event::Resized), Step::Idle);
    assert_eq!(engine.handle_event(Event::MainEventsCleared), Step::RecreateSwapchain);
    assert_eq!(engine.swapchain_recreated(Recreation::ExtentNotSupported), Step::Skip);
    assert!(engine.scene.is_valid());
    assert_eq!(engine.viewport, viewport());
    assert_eq!(engine.target_count(), 3);
    assert_eq!(engine.image_fence(1), Some(&7));
    let after = engine.command_buffer(0, payload).unwrap();
    assert!(Arc::ptr_eq(&before, &after));

    // The resize is still pending, so the next frame tries again.
    assert_eq!(engine.handle_event(Event::MainEventsCleared), Step::RecreateSwapchain);
    let outcome = Recreation::Recreated {
        images: images(3),
        dimensions: [0x44000000, 0x43800000],
        aspect: 0x40000000,
    };
    assert_eq!(engine.swapchain_recreated(outcome), Step::AcquireImage);
    assert_eq!(engine.viewport.dimensions, [0x44000000, 0x43800000]);
    assert_eq!(engine.viewport.origin, [0, 0]);
    assert!(!engine.scene.is_valid());
    assert_eq!(engine.scene.get_camera().configuration().aspect, 0x40000000);
    assert!(!engine.scene.get_camera().is_valid());
    assert_eq!(engine.scene.get_group("basic").pipeline().viewport, engine.viewport);
    assert_eq!(engine.image_fence(1), Some(&7));
    let resized = engine.command_buffer(0, payload).unwrap();
    assert_eq!(resized.camera.view, [0x40000000; 16]);
    assert_eq!(resized.draws[0].pipeline.viewport, engine.viewport);
    assert_eq!(engine.handle_event(Event::MainEventsCleared), Step::AcquireImage);
}

#[test]
fn failed_recreation_gives_up_and_changes_nothing() {
    let mut engine = engine(2);
    engine.command_buffer(0, payload);
    engine.handle_event(Event::Resized);
    engine.handle_event(Event::MainEventsCleared);
    assert_eq!(engine.swapchain_recreated(Recreation::Failed), Step::Abort);
    assert!(engine.scene.is_valid());
    assert_eq!(engine.target_count(), 2);
}

#[test]
fn recreation_without_resize_leaves_the_scene_alone() {
    let mut engine = engine(2);
    engine.command_buffer(0, payload);
    assert_eq!(engine.image_acquired(Acquisition::OutOfDate), Step::Skip);
    assert_eq!(engine.handle_event(Event::MainEventsCleared), Step::RecreateSwapchain);
    let outcome = Recreation::Recreated { images: vec![Image(7), Image(8)], dimensions: [1, 1], aspect: 5 };
    assert_eq!(engine.swapchain_recreated(outcome), Step::AcquireImage);
    assert!(engine.scene.is_valid());
    assert_eq!(engine.viewport, viewport());
    assert_eq!(engine.driver.framebuffers()[1].color, Image(8));
    assert_eq!(engine.driver.framebuffers()[1].depth, Image(99));
    assert_eq!(engine.handle_event(Event::MainEventsCleared), Step::AcquireImage);
}

#[test]
fn out_of_date_targets_are_made_anew_before_the_next_frame() {
    let mut driver: FrameDriver<u32> = FrameDriver::new(&images(2), RenderPass(1), Image(9));
    assert_eq!(driver.image_acquired(Acquisition::OutOfDate), Step::Skip);
    assert_eq!(driver.handle_event(Event::MainEventsCleared), Step::RecreateSwapchain);
    assert!(!driver.retarget(&images(2), RenderPass(1)));
    assert_eq!(
        driver.image_acquired(Acquisition::Acquired { image_i: 1, suboptimal: true }),
        Step::Submit { image_i: 1 }
    );
    assert_eq!(driver.frame_submitted(1, Flush::Flushed(1)), Step::Idle);
    assert_eq!(driver.handle_event(Event::MainEventsCleared), Step::RecreateSwapchain);
    driver.retarget(&images(2), RenderPass(1));
    assert_eq!(driver.frame_submitted(0, Flush::OutOfDate), Step::Idle);
    assert_eq!(driver.image_fence(0), None);
    assert_eq!(driver.handle_event(Event::MainEventsCleared), Step::RecreateSwapchain);
}

#[test]
fn other_failures_give_up() {
    let mut driver: FrameDriver<u32> = FrameDriver::new(&images(2), RenderPass(1), Image(9));
    assert_eq!(driver.image_acquired(Acquisition::Failed), Step::Abort);
    assert_eq!(driver.image_acquired(Acquisition::Acquired { image_i: 2, suboptimal: false }), Step::Abort);
    assert_eq!(driver.frame_submitted(0, Flush::Flushed(3)), Step::Idle);
    assert_eq!(driver.frame_submitted(0, Flush::Failed), Step::Abort);
    assert_eq!(driver.image_fence(0), None);
    assert_eq!(driver.frame_submitted(2, Flush::Flushed(4)), Step::Abort);
    assert_eq!(driver.in_flight(), 0);
    assert_eq!(driver.handle_event(Event::MainEventsCleared), Step::AcquireImage);
}

#[test]
fn another_number_of_targets_starts_with_empty_slots() {
    let mut driver: FrameDriver<u32> = FrameDriver::new(&images(2), RenderPass(1), Image(9));
    driver.frame_submitted(1, Flush::Flushed(5));
    assert_eq!(driver.previous_fence(), Some(&5));
    driver.retarget(&images(2), RenderPass(1));
    assert_eq!(driver.image_fence(1), Some(&5));
    assert_eq!(driver.in_flight(), 1);
    driver.retarget(&images(4), RenderPass(1));
    assert_eq!(driver.target_count(), 4);
    assert_eq!(driver.in_flight(), 0);
    assert_eq!(driver.previous_fence(), None);
    assert_eq!(driver.image_fence(1), None);
    assert_eq!(driver.image_fence(9), None);
}

#[test]
fn stale_list_for_fewer_targets_has_no_entry_for_the_new_ones() {
    let mut engine = engine(2);
    assert!(engine.command_buffer(1, payload).is_some());
    assert!(engine.command_buffer(2, payload).is_none());
    engine.image_acquired(Acquisition::OutOfDate);
    engine.handle_event(Event::MainEventsCleared);
    engine.swapchain_recreated(Recreation::Recreated { images: images(3), dimensions: [1, 1], aspect: 1 });
    // The list was cached for two targets and nothing staled it.
    assert!(engine.command_buffer(2, payload).is_none());
    engine.scene.get_camera();
    assert!(engine.command_buffer(2, payload).is_some());
}
