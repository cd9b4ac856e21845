use sdf_render::compile::{compile, CompileError, Op, Quad, Record};
use sdf_render::scene::{default_fov, default_up, Camera, Material, Object, Vec3, World};

fn bits(x: f32, y: f32, z: f32) -> Vec3 {
    Vec3::new(x.to_bits(), y.to_bits(), z.to_bits())
}

fn camera() -> Camera {
    Camera {
        position: Vec3::zero(),
        look_direction: bits(0.0, 0.0, 1.0),
        up_direction: default_up(),
        fov_y: default_fov(),
        fov_x: default_fov(),
    }
}

fn glowing() -> Material {
    let mut m = Material::black();
    m.emitance = bits(5.0, 5.0, 5.0);
    m
}

fn world(objects: Vec<Object>, materials: Vec<(String, Material)>) -> World {
    World { max_ray_depth: 0, sky_color: Vec3::zero(), objects, materials, camera: camera() }
}

fn sphere(z: f32, material: &str) -> Object {
    Object::Sphere { center: bits(0.0, 0.0, z), radius: 0.5f32.to_bits(), material: material.to_string() }
}

fn unit_box(material: &str) -> Object {
    Object::Box {
        lower_corner: bits(-1.0, -1.0, -1.0),
        upper_corner: bits(1.0, 1.0, 1.0),
        material: material.to_string(),
    }
}

fn check_backward(records: &[Record]) {
    let mut filled: u32 = 0;
    for (i, r) in records.iter().enumerate() {
        if r.op.has_references() {
            assert!(r.first_ref < filled);
            assert!(r.second_ref < filled);
            assert!((r.first_ref as usize) < i);
            assert!((r.second_ref as usize) < i);
        }
        if r.referred {
            filled += 1;
        }
    }
}

#[test]
fn empty_world_compiles_to_no_records() {
    let scene = compile(&world(vec![], vec![])).unwrap();
    assert!(scene.objects.is_empty());
    assert!(scene.materials.is_empty());
}

#[test]
fn single_sphere_record() {
    let w = world(vec![sphere(2.0, "light")], vec![("light".to_string(), glowing())]);
    let scene = compile(&w).unwrap();
    assert_eq!(scene.objects.len(), 1);
    let r = scene.objects[0];
    assert_eq!(r.op, Op::Sphere);
    assert_eq!(r.material, 0);
    assert!(r.rendered);
    assert!(!r.referred);
    assert_eq!(r.args1, Quad { x: 0, y: 0, z: 2.0f32.to_bits(), w: 0.5f32.to_bits() });
    assert_eq!(r.args2, Quad { x: 0, y: 0, z: 0, w: 0 });
    assert_eq!(scene.materials, vec![glowing()]);
}

#[test]
fn unknown_material_resolves_to_fallback() {
    let w = world(
        vec![sphere(1.0, "missing"), sphere(2.0, "b")],
        vec![("a".to_string(), glowing()), ("b".to_string(), Material::black())],
    );
    let scene = compile(&w).unwrap();
    assert_eq!(scene.objects[0].material, 2);
    assert_eq!(scene.objects[1].material, 1);
    assert_eq!(scene.materials.len(), 3);
    assert_eq!(scene.materials[2], Material::black());
    assert_eq!(scene.materials[2].roughness, 1.0f32.to_bits());
}

#[test]
fn repeated_name_is_refused() {
    let w = world(
        vec![sphere(1.0, "a")],
        vec![("b".to_string(), Material::black()), ("a".to_string(), glowing()), ("a".to_string(), Material::black())],
    );
    assert_eq!(compile(&w).unwrap_err(), CompileError::DuplicateName);
}

#[test]
fn indices_follow_name_order() {
    let w = world(
        vec![sphere(1.0, "b"), sphere(2.0, "a")],
        vec![("b".to_string(), Material::black()), ("a".to_string(), glowing())],
    );
    let scene = compile(&w).unwrap();
    assert_eq!(scene.materials, vec![glowing(), Material::black()]);
    assert_eq!(scene.objects[0].material, 1);
    assert_eq!(scene.objects[1].material, 0);
}

#[test]
fn union_children_precede_combinator() {
    let w = world(
        vec![Object::Min(Box::new(sphere(1.0, "a")), Box::new(sphere(3.0, "a")))],
        vec![("a".to_string(), glowing())],
    );
    let scene = compile(&w).unwrap();
    let recs = &scene.objects;
    assert_eq!(recs.len(), 3);
    assert!(recs[0].referred && !recs[0].rendered);
    assert!(recs[1].referred && !recs[1].rendered);
    assert_eq!(recs[2].op, Op::Min);
    assert!(recs[2].rendered && !recs[2].referred);
    assert_eq!((recs[2].first_ref, recs[2].second_ref), (0, 1));
    check_backward(recs);
}

#[test]
fn later_objects_continue_slot_numbering() {
    let w = world(
        vec![
            Object::Inv(Box::new(sphere(1.0, "a"))),
            Object::Max(Box::new(sphere(2.0, "a")), Box::new(Object::Inv(Box::new(unit_box("a"))))),
        ],
        vec![("a".to_string(), glowing())],
    );
    let scene = compile(&w).unwrap();
    let recs = &scene.objects;
    let ops: Vec<Op> = recs.iter().map(|r| r.op).collect();
    assert_eq!(ops, vec![Op::Sphere, Op::Inv, Op::Sphere, Op::Box, Op::Inv, Op::Max]);
    assert_eq!(recs[1].first_ref, 0);
    assert!(recs[1].rendered && !recs[1].referred);
    assert_eq!(recs[4].first_ref, 2);
    assert!(recs[4].referred);
    assert_eq!((recs[5].first_ref, recs[5].second_ref), (1, 3));
    assert_eq!(recs[3].args1, Quad { x: (-1.0f32).to_bits(), y: (-1.0f32).to_bits(), z: (-1.0f32).to_bits(), w: 0 });
    check_backward(recs);
}

#[test]
fn deep_tree_references_backward() {
    let mut o = sphere(0.0, "a");
    for i in 0..40 {
        o = match i % 3 {
            0 => Object::Min(Box::new(o), Box::new(sphere(i as f32, "a"))),
            1 => Object::Max(Box::new(sphere(i as f32, "a")), Box::new(o)),
            _ => Object::Inv(Box::new(o)),
        };
    }
    let w = world(vec![o, Object::Min(Box::new(unit_box("a")), Box::new(unit_box("a")))], vec![]);
    let scene = compile(&w).unwrap();
    check_backward(&scene.objects);
    assert!(sdf_render::eval::references_resolve(&scene.objects));
}

#[test]
fn cylinder_and_torus_records() {
    let w = world(
        vec![
            Object::Cylinder { center: bits(1.0, 2.0, 3.0), height: 4.0f32.to_bits(), radius: 0.25f32.to_bits(), material: "a".to_string() },
            Object::Torus { major_radius: 2.0f32.to_bits(), minor_radius: 0.5f32.to_bits(), center: bits(0.0, 1.0, 0.0), material: "a".to_string() },
        ],
        vec![("a".to_string(), glowing())],
    );
    let scene = compile(&w).unwrap();
    assert_eq!(scene.objects[0].op, Op::Cylinder);
    assert_eq!(scene.objects[0].args1.w, 4.0f32.to_bits());
    assert_eq!(scene.objects[0].args2.x, 0.25f32.to_bits());
    assert_eq!(scene.objects[1].op, Op::Torus);
    assert_eq!(scene.objects[1].args1, Quad { x: 0, y: 1.0f32.to_bits(), z: 0, w: 2.0f32.to_bits() });
    assert_eq!(scene.objects[1].args2.x, 0.5f32.to_bits());
}

#[test]
fn repetition_is_refused() {
    let w = world(
        vec![sphere(1.0, "a"), Object::Min(Box::new(sphere(1.0, "a")), Box::new(Object::PosModulo(Box::new(sphere(1.0, "a")), 2.0f32.to_bits())))],
        vec![],
    );
    assert_eq!(compile(&w).unwrap_err(), CompileError::Repetition);
    let o = Object::Inv(Box::new(Object::PosModulo(Box::new(unit_box("a")), 1)));
    assert!(o.contains_repetition());
    assert!(!sphere(0.0, "a").contains_repetition());
}

#[test]
fn slot_count_is_capped() {
    let o = Object::Min(
        Box::new(Object::Inv(Box::new(sphere(0.0, "a")))),
        Box::new(Object::Max(Box::new(sphere(0.0, "a")), Box::new(sphere(0.0, "a")))),
    );
    assert_eq!(o.slot_count(100), 5);
    assert_eq!(o.slot_count(4), 4);
    assert_eq!(sphere(0.0, "a").slot_count(100), 0);
}

#[test]
fn op_codes() {
    assert_eq!(Op::Sphere.code(), 0);
    assert_eq!(Op::Box.code(), 1);
    assert_eq!(Op::Inv.code(), 3);
    assert_eq!(Op::Max.code(), 4);
    assert_eq!(Op::Min.code(), 5);
    assert_eq!(Op::Torus.code(), 6);
    assert_eq!(Op::Cylinder.code(), 7);
    assert!(Op::Min.has_references() && Op::Inv.has_references() && Op::Max.has_references());
    assert!(!Op::Sphere.has_references());
}

#[test]
fn scene_defaults() {
    assert_eq!(default_up(), Vec3::new(0, (-1.0f32).to_bits(), 0));
    assert_eq!(default_fov(), 90.0f32.to_bits());
    let r = sdf_render::scene::SimpleRotation::default();
    assert_eq!(r.from, bits(1.0, 0.0, 0.0));
    assert_eq!(r.to, bits(1.0, 0.0, 0.0));
    let b = Material::black();
    assert_eq!(b.color, Vec3::zero());
    assert_eq!(b.emitance, Vec3::zero());
    assert_eq!(b.metalness, 0);
    assert!(!b.is_portal);
}
