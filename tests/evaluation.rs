use sdf_render::compile::{compile, Op, Quad, Record};
use sdf_render::eval::{evaluate, references_resolve, Sample};
use sdf_render::scene::{Camera, Material, Object, Vec3, World};

fn world(objects: Vec<Object>) -> World {
    World {
        max_ray_depth: 0,
        sky_color: Vec3::zero(),
        objects,
        materials: vec![("a".to_string(), Material::black()), ("b".to_string(), Material::black())],
        camera: Camera { position: Vec3::zero(), look_direction: Vec3::zero(), up_direction: Vec3::zero(), fov_y: 0, fov_x: 0 },
    }
}

fn ball(material: &str) -> Object {
    Object::Sphere { center: Vec3::zero(), radius: 0, material: material.to_string() }
}

fn s(distance: i64, material: u32) -> Sample {
    Sample { distance, material }
}

fn records(objects: Vec<Object>) -> Vec<Record> {
    compile(&world(objects)).unwrap().objects
}

#[test]
fn union_takes_nearer_operand() {
    let recs = records(vec![Object::Min(Box::new(ball("a")), Box::new(ball("b")))]);
    assert_eq!(evaluate(&recs, &vec![s(5, 0), s(3, 1), s(0, 0)]), Some(s(3, 1)));
    assert_eq!(evaluate(&recs, &vec![s(-2, 0), s(3, 1), s(0, 0)]), Some(s(-2, 0)));
}

#[test]
fn union_tie_keeps_first_operand() {
    let recs = records(vec![Object::Min(Box::new(ball("a")), Box::new(ball("b")))]);
    assert_eq!(evaluate(&recs, &vec![s(4, 0), s(4, 1), s(0, 0)]), Some(s(4, 0)));
}

#[test]
fn intersection_takes_farther_operand() {
    let recs = records(vec![Object::Max(Box::new(ball("a")), Box::new(ball("b")))]);
    assert_eq!(evaluate(&recs, &vec![s(5, 0), s(3, 1), s(0, 0)]), Some(s(5, 0)));
    assert_eq!(evaluate(&recs, &vec![s(-5, 0), s(3, 1), s(0, 0)]), Some(s(3, 1)));
    assert_eq!(evaluate(&recs, &vec![s(7, 0), s(7, 1), s(0, 0)]), Some(s(7, 0)));
}

#[test]
fn inversion_negates_distance() {
    let recs = records(vec![Object::Inv(Box::new(ball("b")))]);
    assert_eq!(evaluate(&recs, &vec![s(4, 1), s(0, 0)]), Some(s(-4, 1)));
    assert_eq!(evaluate(&recs, &vec![s(-9, 1), s(0, 0)]), Some(s(9, 1)));
}

#[test]
fn nested_combinators() {
    // max(min(a, inv(b)), c)
    let o = Object::Max(
        Box::new(Object::Min(Box::new(ball("a")), Box::new(Object::Inv(Box::new(ball("b")))))),
        Box::new(ball("a")),
    );
    let recs = records(vec![o]);
    let ops: Vec<Op> = recs.iter().map(|r| r.op).collect();
    assert_eq!(ops, vec![Op::Sphere, Op::Sphere, Op::Inv, Op::Min, Op::Sphere, Op::Max]);
    let z = s(0, 0);
    // a = 2, b = 3 -> inv b = -3, min = -3, c = 1, max = 1
    assert_eq!(evaluate(&recs, &vec![s(2, 0), s(3, 1), z, z, s(1, 0), z]), Some(s(1, 0)));
    // a = -6, b = 3 -> min = -6, c = -7, max = -6
    assert_eq!(evaluate(&recs, &vec![s(-6, 0), s(3, 1), z, z, s(-7, 1), z]), Some(s(-6, 0)));
}

#[test]
fn top_level_objects_form_a_union() {
    let recs = records(vec![ball("a"), Object::Inv(Box::new(ball("b"))), ball("b")]);
    assert_eq!(evaluate(&recs, &vec![s(10, 0), s(-3, 1), s(0, 0), s(2, 1)]), Some(s(2, 1)));
    assert_eq!(evaluate(&recs, &vec![s(1, 0), s(-3, 1), s(0, 0), s(1, 1)]), Some(s(1, 0)));
}

#[test]
fn empty_scene_has_no_surface() {
    let recs = records(vec![]);
    assert_eq!(evaluate(&recs, &vec![]), None);
}

#[test]
fn forward_reference_is_detected() {
    let zero = Quad { x: 0, y: 0, z: 0, w: 0 };
    let leafrec = Record { op: Op::Sphere, material: 0, referred: true, rendered: false, args1: zero, args2: zero, first_ref: 0, second_ref: 0 };
    let good = Record { op: Op::Inv, material: 0, referred: false, rendered: true, args1: zero, args2: zero, first_ref: 0, second_ref: 0 };
    let bad = Record { op: Op::Min, material: 0, referred: false, rendered: true, args1: zero, args2: zero, first_ref: 0, second_ref: 1 };
    assert!(references_resolve(&vec![leafrec, good]));
    assert!(!references_resolve(&vec![leafrec, bad]));
    assert!(!references_resolve(&vec![good]));
}
