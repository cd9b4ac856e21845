use vstd::prelude::*;

verus! {

/// Bit pattern of the single-precision value `1.0`.
pub const ONE_BITS: u32 = 0x3f80_0000;

/// Bit pattern of the single-precision value `-1.0`.
pub const MINUS_ONE_BITS: u32 = 0xbf80_0000;

/// Bit pattern of the single-precision value `90.0`.
pub const NINETY_BITS: u32 = 0x42b4_0000;

/// A three-component vector; each component is the bit pattern of a
/// single-precision float.
#[derive(Clone, Copy, Debug, PartialEq, Eq, Structural)]
pub struct Vec3 {
    pub x: u32,
    pub y: u32,
    pub z: u32,
}

impl Vec3 {
    pub fn new(x: u32, y: u32, z: u32) -> (r: Vec3)
        ensures
            r == (Vec3 { x, y, z }),
    {
        Vec3 { x, y, z }
    }

    /// The zero vector (all bits clear).
    pub fn zero() -> (r: Vec3)
        ensures
            r == (Vec3 { x: 0, y: 0, z: 0 }),
    {
        Vec3 { x: 0, y: 0, z: 0 }
    }
}

/// A rotation that turns the direction `from` onto the direction `to`.
#[derive(Clone, Copy, Debug, PartialEq, Eq, Structural)]
pub struct SimpleRotation {
    pub from: Vec3,
    pub to: Vec3,
}

impl Default for SimpleRotation {
    /// The identity-like rotation from `(1,0,0)` to `(1,0,0)`.
    fn default() -> (r: SimpleRotation)
        ensures
            r.from == (Vec3 { x: ONE_BITS, y: 0, z: 0 }),
            r.to == (Vec3 { x: ONE_BITS, y: 0, z: 0 }),
    {
        SimpleRotation {
            from: Vec3 { x: ONE_BITS, y: 0, z: 0 },
            to: Vec3 { x: ONE_BITS, y: 0, z: 0 },
        }
    }
}

/// Surface description of an object.
#[derive(Clone, Copy, Debug, PartialEq, Eq, Structural)]
pub struct Material {
    pub color: Vec3,
    pub emitance: Vec3,
    pub metalness: u32,
    pub roughness: u32,
    pub is_portal: bool,
    pub translation: Vec3,
    pub rotate_around: Vec3,
    pub rotation: SimpleRotation,
}

/// The material that unknown material names fall back to: no color, no
/// emitance, not metallic, fully rough.
pub open spec fn black_material() -> Material {
    Material {
        color: Vec3 { x: 0, y: 0, z: 0 },
        emitance: Vec3 { x: 0, y: 0, z: 0 },
        metalness: 0,
        roughness: ONE_BITS,
        is_portal: false,
        translation: Vec3 { x: 0, y: 0, z: 0 },
        rotate_around: Vec3 { x: 0, y: 0, z: 0 },
        rotation: SimpleRotation {
            from: Vec3 { x: ONE_BITS, y: 0, z: 0 },
            to: Vec3 { x: ONE_BITS, y: 0, z: 0 },
        },
    }
}

impl Material {
    pub fn black() -> (r: Material)
        ensures
            r == black_material(),
    {
        Material {
            color: Vec3::zero(),
            emitance: Vec3::zero(),
            metalness: 0,
            roughness: ONE_BITS,
            is_portal: false,
            translation: Vec3::zero(),
            rotate_around: Vec3::zero(),
            rotation: SimpleRotation::default(),
        }
    }
}

/// A node of the constructive-solid-geometry tree. Primitives name their
/// material; combinators own their children.
#[derive(Debug)]
pub enum Object {
    Sphere { center: Vec3, radius: u32, material: String },
    Box { lower_corner: Vec3, upper_corner: Vec3, material: String },
    Cylinder { center: Vec3, height: u32, radius: u32, material: String },
    /// Infinite repetition of the child with the given period.
    PosModulo(Box<Object>, u32),
    /// Inside and outside of the child swapped.
    Inv(Box<Object>),
    /// Union: the nearer of the two children.
    Min(Box<Object>, Box<Object>),
    /// Intersection: the farther of the two children.
    Max(Box<Object>, Box<Object>),
    Torus { major_radius: u32, minor_radius: u32, center: Vec3, material: String },
}

/// Viewpoint of the rendered image.
#[derive(Clone, Copy, Debug, PartialEq, Eq, Structural)]
pub struct Camera {
    pub position: Vec3,
    pub look_direction: Vec3,
    pub up_direction: Vec3,
    pub fov_y: u32,
    pub fov_x: u32,
}

/// The up direction a camera gets when none is given: `(0,-1,0)`.
pub fn default_up() -> (r: Vec3)
    ensures
        r == (Vec3 { x: 0, y: MINUS_ONE_BITS, z: 0 }),
{
    Vec3 { x: 0, y: MINUS_ONE_BITS, z: 0 }
}

/// The field of view a camera gets when none is given: 90 degrees.
pub fn default_fov() -> (r: u32)
    ensures
        r == NINETY_BITS,
{
    NINETY_BITS
}

/// A whole scene. The top-level objects form an implicit union; materials are
/// named, and their order in `materials` fixes their indices.
#[derive(Debug)]
pub struct World {
    pub max_ray_depth: u32,
    pub sky_color: Vec3,
    pub objects: Vec<Object>,
    pub materials: Vec<(String, Material)>,
    pub camera: Camera,
}

} // verus!
