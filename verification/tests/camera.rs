use render_scene::camera::{Camera, CameraConfiguration, CameraData};
use std::cell::Cell;

fn data(tag: u32) -> CameraData {
    CameraData { view: [tag; 16], projection: [tag + 1; 16] }
}

#[test]
fn default_configuration_has_the_documented_bits() {
    let c = CameraConfiguration::default();
    assert_eq!(c.position, [0, 0, 0]);
    assert_eq!(c.angle, [0, 0, 0]);
    assert_eq!(f32::from_bits(c.aspect), 1.0);
    assert_eq!(f32::from_bits(c.fov_y), 45.0);
    assert_eq!(f32::from_bits(c.z_near), 0.01);
    assert_eq!(f32::from_bits(c.z_far), 100.0);
    assert_eq!(Camera::new().configuration(), c);
}

#[test]
fn payload_is_built_once_per_change() {
    let mut camera = Camera::new();
    assert!(!camera.is_valid());
    assert_eq!(camera.payload(), None);
    let builds = Cell::new(0);
    let first = camera.subbuffer(|_| {
        builds.set(builds.get() + 1);
        data(1)
    });
    assert_eq!(first, data(1));
    assert!(camera.is_valid());
    assert_eq!(camera.payload(), Some(data(1)));
    let second = camera.subbuffer(|_| {
        builds.set(builds.get() + 1);
        data(2)
    });
    assert_eq!(second, data(1));
    assert_eq!(builds.get(), 1);
}

#[test]
fn update_applies_the_change_and_stales_the_payload() {
    let mut camera = Camera::new();
    camera.subbuffer(|_| data(1));
    camera.update(|c| CameraConfiguration { position: [1, 2, 3], ..c });
    assert!(!camera.is_valid());
    assert_eq!(camera.configuration().position, [1, 2, 3]);
    let rebuilt = camera.subbuffer(|c| data(c.position[2]));
    assert_eq!(rebuilt, data(3));
}

#[test]
fn update_that_changes_nothing_still_stales_the_payload() {
    let mut camera = Camera::new();
    camera.subbuffer(|_| data(1));
    camera.update(|c| c);
    assert!(!camera.is_valid());
    assert_eq!(camera.configuration(), CameraConfiguration::default());
}

#[test]
fn invalidate_keeps_the_configuration() {
    let mut camera = Camera::new();
    camera.update(|c| CameraConfiguration { fov_y: 9, ..c });
    camera.subbuffer(|_| data(1));
    camera.invalidate();
    assert!(!camera.is_valid());
    assert_eq!(camera.configuration().fov_y, 9);
}
