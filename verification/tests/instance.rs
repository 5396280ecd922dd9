use nalgebra::{Matrix4, Point3, Vector3};
use render_scene::instance::{Instance, Model, Transform};

fn floats(bits: [u32; 3]) -> Vector3<f32> {
    Vector3::new(f32::from_bits(bits[0]), f32::from_bits(bits[1]), f32::from_bits(bits[2]))
}

fn bits(v: [f32; 3]) -> [u32; 3] {
    [v[0].to_bits(), v[1].to_bits(), v[2].to_bits()]
}

/// Translation, then the rotations about x, y and z, then the uniform scale.
fn bake(t: &Transform) -> Model {
    let angle = floats(t.angle);
    let m = Matrix4::new_translation(&floats(t.position))
        * Matrix4::new_rotation(Vector3::new(angle.x, 0.0, 0.0))
        * Matrix4::new_rotation(Vector3::new(0.0, angle.y, 0.0))
        * Matrix4::new_rotation(Vector3::new(0.0, 0.0, angle.z))
        * Matrix4::new_scaling(f32::from_bits(t.scale));
    let mut model = [0u32; 16];
    for (k, x) in m.as_slice().iter().enumerate() {
        model[k] = x.to_bits();
    }
    Model { model }
}

fn matrix(model: Model) -> Matrix4<f32> {
    let values: Vec<f32> = model.model.iter().map(|b| f32::from_bits(*b)).collect();
    Matrix4::from_column_slice(&values)
}

#[test]
fn default_instance_sits_at_the_origin_with_the_identity() {
    let instance = Instance::default();
    let t = instance.transform();
    assert_eq!(t.position, [0, 0, 0]);
    assert_eq!(t.angle, [0, 0, 0]);
    assert_eq!(f32::from_bits(t.scale), 1.0);
    assert_eq!(matrix(instance.model()), Matrix4::identity());
    assert_eq!(instance.model(), Model::default());
    assert_eq!(bake(&t), instance.model());
}

#[test]
fn round_trip_transform() {
    let mut instance = Instance::default();
    instance.update(
        |t| Transform { position: bits([1.0, 2.0, 3.0]), scale: 2.0f32.to_bits(), ..t },
        bake,
    );
    let m = matrix(instance.model());
    assert_eq!(m.transform_point(&Point3::origin()), Point3::new(1.0, 2.0, 3.0));
    assert_eq!(m.transform_point(&Point3::new(1.0, 0.0, 0.0)), Point3::new(3.0, 2.0, 3.0));
    assert_eq!(m.transform_point(&Point3::new(0.0, 1.0, 0.0)), Point3::new(1.0, 4.0, 3.0));
    assert_eq!(m.transform_point(&Point3::new(0.0, 0.0, 1.0)), Point3::new(1.0, 2.0, 5.0));
    assert_eq!(m.transform_vector(&Vector3::x()).norm(), 2.0);
}

#[test]
fn update_bakes_the_transform_that_the_change_left() {
    let mut instance = Instance::default();
    instance.update(|t| Transform { position: [4, 5, 6], ..t }, |t: &Transform| {
        let mut model = [0; 16];
        model[0] = t.position[0] + t.position[1] + t.position[2];
        Model { model }
    });
    assert_eq!(instance.transform().position, [4, 5, 6]);
    assert_eq!(instance.model().model[0], 15);
    instance.update(|t| Transform { angle: [1, 1, 1], ..t }, |t: &Transform| {
        let mut model = [0; 16];
        model[1] = t.position[0] + t.angle[0];
        Model { model }
    });
    assert_eq!(instance.transform().position, [4, 5, 6]);
    assert_eq!(instance.transform().angle, [1, 1, 1]);
    assert_eq!(instance.model().model[0], 0);
    assert_eq!(instance.model().model[1], 5);
}
