use sdf_render::compile::compile;
use sdf_render::order::{name_le, names_distinct, sorted_by_name};
use sdf_render::scene::{Camera, Material, Object, Vec3, World};

fn material(tag: u32) -> Material {
    let mut m = Material::black();
    m.metalness = tag;
    m
}

fn listed(names: &[&str]) -> Vec<(String, Material)> {
    names.iter().enumerate().map(|(i, n)| (n.to_string(), material(i as u32))).collect()
}

fn world(names: &[&str]) -> World {
    World {
        max_ray_depth: 1,
        sky_color: Vec3::new(1, 2, 3),
        objects: vec![Object::Sphere { center: Vec3::zero(), radius: 0, material: "glass".to_string() }],
        materials: listed(names),
        camera: Camera { position: Vec3::zero(), look_direction: Vec3::zero(), up_direction: Vec3::zero(), fov_y: 0, fov_x: 0 },
    }
}

#[test]
fn names_compare_by_bytes() {
    assert!(name_le(&"apple".to_string(), &"banana".to_string()));
    assert!(!name_le(&"banana".to_string(), &"apple".to_string()));
    assert!(name_le(&"app".to_string(), &"apple".to_string()));
    assert!(!name_le(&"apple".to_string(), &"app".to_string()));
    assert!(name_le(&"same".to_string(), &"same".to_string()));
    assert!(name_le(&"".to_string(), &"x".to_string()));
    assert!(name_le(&"Zebra".to_string(), &"apple".to_string()));
    assert!(name_le(&"z".to_string(), &"\u{e9}".to_string()));
}

#[test]
fn materials_sort_by_name() {
    let given = listed(&["metal", "glass", "air", "zinc", "glass"]);
    let sorted = sorted_by_name(&given);
    let names: Vec<&str> = sorted.iter().map(|(n, _)| n.as_str()).collect();
    assert_eq!(names, vec!["air", "glass", "glass", "metal", "zinc"]);
    let mut tags: Vec<u32> = sorted.iter().map(|(_, m)| m.metalness).collect();
    tags.sort();
    assert_eq!(tags, vec![0, 1, 2, 3, 4]);
    assert_eq!(given.len(), 5);
}

#[test]
fn duplicate_names_are_found() {
    assert!(names_distinct(&listed(&["a", "b", "c"])));
    assert!(!names_distinct(&listed(&["a", "b", "a"])));
    assert!(names_distinct(&listed(&[])));
}

#[test]
fn indices_do_not_depend_on_listing_order() {
    let a = world(&["metal", "glass", "air"]);
    let b = world(&["air", "metal", "glass"]);
    let ca = compile(&a).unwrap();
    let cb = compile(&b).unwrap();
    assert_eq!(ca.objects, cb.objects);
    assert_eq!(ca.objects[0].material, 1);
    assert_eq!(ca.materials.len(), 3);
    assert_eq!(ca.materials[0], material(2));
    assert_eq!(cb.materials[0], material(0));
    assert_eq!(ca.materials[1], material(1));
}

#[test]
fn sorting_nothing_is_fine() {
    assert!(sorted_by_name(&listed(&[])).is_empty());
}
