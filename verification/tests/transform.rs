use motor::components::model::Model;
use motor::components::transform::{Transform, TransformOp};
use motor::geometry::Vector3;
use motor::scene::Scene;
use nalgebra_glm as glm;

fn bits(x: f32, y: f32, z: f32) -> Vector3 {
    Vector3::new(x.to_bits(), y.to_bits(), z.to_bits())
}

fn floats(v: &Vector3) -> glm::Vec3 {
    glm::vec3(f32::from_bits(v.x), f32::from_bits(v.y), f32::from_bits(v.z))
}

/// The matrix of a transform: the identity, multiplied from the right by
/// each elementary transform in turn.
fn matrix(transform: &Transform) -> glm::Mat4 {
    let mut m = glm::identity::<f32, 4>();
    for op in transform.ops() {
        m = match op {
            TransformOp::Rotate { radians, axis } => {
                glm::rotate(&m, f32::from_bits(*radians), &floats(axis))
            },
            TransformOp::Scale { factors } => glm::scale(&m, &floats(factors)),
            TransformOp::Translate { offset } => glm::translate(&m, &floats(offset)),
        };
    }
    m
}

fn close(a: &glm::Mat4, b: &glm::Mat4) -> bool {
    a.iter().zip(b.iter()).all(|(x, y)| (x - y).abs() < 1e-5)
}

fn empty_model() -> Model {
    Model::new(String::from("models/none.obj"), &Scene { meshes: vec![], materials: vec![] })
}

#[test]
fn a_new_transform_is_the_identity() {
    let t = Transform::identity();
    assert!(t.ops().is_empty());
    assert_eq!(matrix(&t), glm::identity::<f32, 4>());
}

#[test]
fn a_new_model_has_the_identity_transform() {
    let model = empty_model();
    assert!(model.transform().ops().is_empty());
}

#[test]
fn builder_calls_are_kept_in_call_order() {
    let scale = bits(0.1, 0.1, 0.1);
    let offset = bits(50.0, 0.0, 0.0);
    let axis = bits(0.0, 1.0, 0.0);
    let angle = 42f32.to_radians().to_bits();
    let model = empty_model().with_scale(&scale).with_translate(&offset).with_rotate(angle, &axis);
    assert_eq!(
        model.transform().ops(),
        &vec![
            TransformOp::Scale { factors: scale },
            TransformOp::Translate { offset },
            TransformOp::Rotate { radians: angle, axis },
        ]
    );
}

#[test]
fn followed_by_appends() {
    let a = TransformOp::Scale { factors: bits(2.0, 2.0, 2.0) };
    let b = TransformOp::Translate { offset: bits(1.0, 0.0, 0.0) };
    let t = Transform::identity().followed_by(a).followed_by(b);
    assert_eq!(t.ops(), &vec![a, b]);
    let u = Transform::identity().followed_by(b).followed_by(a);
    assert_eq!(u.ops(), &vec![b, a]);
    assert_ne!(t.ops(), u.ops());
}

#[test]
fn rotate_then_translate_is_the_product_in_call_order() {
    let axis = glm::vec3(0.0f32, 1.0, 0.0);
    let offset = glm::vec3(1.0f32, 0.0, 0.0);
    let angle = 90f32.to_radians();
    let model = empty_model()
        .with_rotate(angle.to_bits(), &bits(0.0, 1.0, 0.0))
        .with_translate(&bits(1.0, 0.0, 0.0));
    let built = matrix(model.transform());

    let r = glm::rotation(angle, &axis);
    let t = glm::translation(&offset);
    let in_order = glm::identity::<f32, 4>() * r * t;
    let reversed = glm::identity::<f32, 4>() * t * r;
    assert!(close(&built, &in_order));
    assert!(!close(&built, &reversed));

    // The origin goes where the rotated x axis points: one unit along -z.
    let moved = built * glm::vec4(0.0f32, 0.0, 0.0, 1.0);
    assert!((moved.x - 0.0).abs() < 1e-5);
    assert!((moved.y - 0.0).abs() < 1e-5);
    assert!((moved.z + 1.0).abs() < 1e-5);
}

#[test]
fn swapping_two_calls_changes_the_matrix() {
    let angle = 90f32.to_radians().to_bits();
    let axis = bits(0.0, 1.0, 0.0);
    let offset = bits(1.0, 0.0, 0.0);
    let one = empty_model().with_rotate(angle, &axis).with_translate(&offset);
    let other = empty_model().with_translate(&offset).with_rotate(angle, &axis);
    assert_ne!(one.transform().ops(), other.transform().ops());
    assert!(!close(&matrix(one.transform()), &matrix(other.transform())));
}

#[test]
fn the_builder_changes_nothing_but_the_transform() {
    let model = empty_model();
    let state = model.state();
    let model = model.with_scale(&bits(2.0, 2.0, 2.0));
    assert_eq!(model.state(), state);
    assert_eq!(model.model_path(), "models/none.obj");
    assert!(model.meshes().is_empty());
    assert!(model.textures().is_empty());
}
