use sdf_render::scene::{Camera, Material, Object, Vec3, World};
use sdf_render::shader::ShaderError;

fn world(objects: Vec<Object>) -> World {
    World {
        max_ray_depth: 0,
        sky_color: Vec3::zero(),
        objects,
        materials: vec![("light".to_string(), Material::black())],
        camera: Camera { position: Vec3::zero(), look_direction: Vec3::zero(), up_direction: Vec3::zero(), fov_y: 0, fov_x: 0 },
    }
}

fn sphere(z: f32, material: &str) -> Object {
    Object::Sphere {
        center: Vec3::new(0, 0, z.to_bits()),
        radius: 0.5f32.to_bits(),
        material: material.to_string(),
    }
}

const HEADER: &str = "vec2 sdf(vec3 position) {\nfloat running_lowest_distance = uintBitsToFloat(2139095040u);\nuint running_lowest_mat = 0u;\n";
const FOOTER: &str = "return vec2(running_lowest_distance, float(running_lowest_mat));\n}\n";

fn union_step(k: u32) -> String {
    format!(
        "if (distance_{k} < running_lowest_distance) {{\nrunning_lowest_distance = distance_{k};\nrunning_lowest_mat = material_{k};\n}}\n"
    )
}

#[test]
fn single_sphere_source() {
    let (text, materials) = world(vec![sphere(2.0, "light")]).create_shader_function().unwrap();
    let body = format!(
        "{HEADER}uint material_0 = 0u;\nfloat distance_0 = sdf_sphere(position, vec3(uintBitsToFloat(0u), uintBitsToFloat(0u), uintBitsToFloat(1073741824u)), uintBitsToFloat(1056964608u));\n{}{FOOTER}",
        union_step(0)
    );
    assert!(text.starts_with("float sdf_sphere(vec3 p, vec3 center, float radius) {\n"));
    assert!(text.ends_with(&body));
    assert!(text.contains("float sdf_torus("));
    assert_eq!(materials, vec![Material::black()]);
}

#[test]
fn empty_world_source_returns_infinity() {
    let (text, materials) = world(vec![]).create_shader_function().unwrap();
    assert!(text.ends_with(&format!("{HEADER}{FOOTER}")));
    assert_eq!(materials.len(), 1);
}

#[test]
fn combinator_source_numbers_children_first() {
    let o = Object::Min(Box::new(sphere(1.0, "light")), Box::new(Object::Inv(Box::new(sphere(3.0, "other")))));
    let (text, materials) = world(vec![o]).create_shader_function().unwrap();
    assert_eq!(materials.len(), 2);
    assert!(text.contains("uint material_1 = 1u;\n"));
    assert!(text.contains("uint material_2 = material_1;\nfloat distance_2 = -distance_1;\n"));
    assert!(text.contains(
        "uint material_3 = material_0;\nfloat distance_3 = distance_0;\nif (distance_2 < distance_3) {\ndistance_3 = distance_2;\nmaterial_3 = material_2;\n}\n"
    ));
    assert!(text.ends_with(&format!("{}{FOOTER}", union_step(3))));
}

#[test]
fn intersection_source_keeps_farther() {
    let o = Object::Max(Box::new(sphere(1.0, "light")), Box::new(sphere(3.0, "light")));
    let (text, _) = world(vec![o, sphere(4.0, "light")]).create_shader_function().unwrap();
    assert!(text.contains("if (distance_1 > distance_2) {\ndistance_2 = distance_1;\nmaterial_2 = material_1;\n}\n"));
    assert!(text.contains(&format!("{}uint material_3 = 0u;", union_step(2))));
    assert!(text.ends_with(&format!("{}{FOOTER}", union_step(3))));
}

#[test]
fn box_cylinder_torus_source() {
    let one = 1.0f32.to_bits();
    let objects = vec![
        Object::Box { lower_corner: Vec3::zero(), upper_corner: Vec3::new(one, one, one), material: "light".to_string() },
        Object::Cylinder { center: Vec3::zero(), height: one, radius: 0, material: "light".to_string() },
        Object::Torus { major_radius: one, minor_radius: 0, center: Vec3::zero(), material: "light".to_string() },
    ];
    let (text, _) = world(objects).create_shader_function().unwrap();
    assert!(text.contains("float distance_0 = sdf_box(position, vec3(uintBitsToFloat(0u), uintBitsToFloat(0u), uintBitsToFloat(0u)), vec3(uintBitsToFloat(1065353216u), uintBitsToFloat(1065353216u), uintBitsToFloat(1065353216u)));\n"));
    assert!(text.contains("float distance_1 = sdf_cylinder(position, vec3(uintBitsToFloat(0u), uintBitsToFloat(0u), uintBitsToFloat(0u)), uintBitsToFloat(1065353216u), uintBitsToFloat(0u));\n"));
    assert!(text.contains("float distance_2 = sdf_torus(position, vec3(uintBitsToFloat(0u), uintBitsToFloat(0u), uintBitsToFloat(0u)), uintBitsToFloat(1065353216u), uintBitsToFloat(0u));\n"));
}

#[test]
fn repetition_has_no_source() {
    let w = world(vec![Object::PosModulo(Box::new(sphere(1.0, "light")), 1)]);
    assert_eq!(w.create_shader_function().unwrap_err(), ShaderError::Repetition);
}

#[test]
fn node_count_is_capped() {
    let o = Object::Min(Box::new(sphere(1.0, "a")), Box::new(Object::Inv(Box::new(sphere(3.0, "b")))));
    assert_eq!(o.node_count(100), 4);
    assert_eq!(o.node_count(3), 3);
}

#[test]
fn shader_indices_follow_name_order() {
    let mut w = world(vec![sphere(1.0, "light"), sphere(2.0, "dark")]);
    let mut dark = Material::black();
    dark.metalness = 7;
    w.materials.push(("dark".to_string(), dark));
    let (text, materials) = w.create_shader_function().unwrap();
    assert_eq!(materials, vec![dark, Material::black()]);
    assert!(text.contains("uint material_0 = 1u;\n"));
    assert!(text.contains("uint material_1 = 0u;\n"));
}

#[test]
fn shader_refuses_repeated_names() {
    let mut w = world(vec![]);
    w.materials.push(("light".to_string(), Material::black()));
    assert_eq!(w.create_shader_function().unwrap_err(), ShaderError::DuplicateName);
}

#[test]
fn cylinder_uses_half_height() {
    let w = world(vec![]);
    let (text, _) = w.create_shader_function().unwrap();
    assert!(text.contains("- vec2(radius, height * 0.5);"));
}
