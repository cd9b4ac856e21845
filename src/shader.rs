use vstd::prelude::*;
use vstd::string::StringExecFns;

use crate::compile::{
    any_unknown, find_material, material_of, material_table, material_table_of, needs_fallback, repeats,
    repeats_any, MAX_MATERIALS,
};
use crate::order::{names_distinct, names_sorted, names_unique, sorted_by_name};
use crate::scene::{Material, Object, Vec3, World};

verus! {

pub open spec fn digit_text(d: int) -> Seq<char> {
    if d == 0 {
        "0"@
    } else if d == 1 {
        "1"@
    } else if d == 2 {
        "2"@
    } else if d == 3 {
        "3"@
    } else if d == 4 {
        "4"@
    } else if d == 5 {
        "5"@
    } else if d == 6 {
        "6"@
    } else if d == 7 {
        "7"@
    } else if d == 8 {
        "8"@
    } else {
        "9"@
    }
}

/// `out` followed by the decimal digits of `n`.
pub open spec fn put_decimal(out: Seq<char>, n: nat) -> Seq<char>
    decreases n,
{
    if n < 10 {
        out + digit_text(n as int)
    } else {
        put_decimal(out, n / 10) + digit_text((n % 10) as int)
    }
}

/// `out` followed by a GLSL expression for the float with bit pattern `bits`.
pub open spec fn put_float(out: Seq<char>, bits: u32) -> Seq<char> {
    put_decimal(out + "uintBitsToFloat("@, bits as nat) + "u)"@
}

/// `out` followed by a GLSL `vec3` of the three floats of `v`.
pub open spec fn put_vec3(out: Seq<char>, v: Vec3) -> Seq<char> {
    let s = put_float(out + "vec3("@, v.x);
    let s = put_float(s + ", "@, v.y);
    let s = put_float(s + ", "@, v.z);
    s + ")"@
}

fn push_digit(out: &mut String, d: u64)
    requires
        d < 10,
    ensures
        final(out)@ == old(out)@ + digit_text(d as int),
{
    if d == 0 {
        out.append("0");
    } else if d == 1 {
        out.append("1");
    } else if d == 2 {
        out.append("2");
    } else if d == 3 {
        out.append("3");
    } else if d == 4 {
        out.append("4");
    } else if d == 5 {
        out.append("5");
    } else if d == 6 {
        out.append("6");
    } else if d == 7 {
        out.append("7");
    } else if d == 8 {
        out.append("8");
    } else {
        out.append("9");
    }
}

fn push_decimal(out: &mut String, n: u64)
    ensures
        final(out)@ == put_decimal(old(out)@, n as nat),
    decreases n,
{
    if n >= 10 {
        push_decimal(out, n / 10);
    }
    push_digit(out, n % 10);
}

fn push_float(out: &mut String, bits: u32)
    ensures
        final(out)@ == put_float(old(out)@, bits),
{
    out.append("uintBitsToFloat(");
    push_decimal(out, bits as u64);
    out.append("u)");
}

fn push_vec3(out: &mut String, v: Vec3)
    ensures
        final(out)@ == put_vec3(old(out)@, v),
{
    out.append("vec3(");
    push_float(out, v.x);
    out.append(", ");
    push_float(out, v.y);
    out.append(", ");
    push_float(out, v.z);
    out.append(")");
}


/// The most nodes a generated shader numbers.
pub const MAX_NODES: u64 = 4_294_967_296;

/// GLSL distance functions of the primitives, shared by every generated shader.
pub open spec fn prelude_text() -> Seq<char> {
    "float sdf_sphere(vec3 p, vec3 center, float radius) {
    return distance(center, p) - radius;
}
float sdf_box(vec3 p, vec3 lower, vec3 upper) {
    vec3 offset = abs(p - (lower + upper) * 0.5) - (upper - lower) * 0.5;
    return length(max(offset, 0.0)) + min(max(offset.x, max(offset.y, offset.z)), 0.0);
}
float sdf_cylinder(vec3 p, vec3 center, float height, float radius) {
    vec3 rel = center - p;
    vec2 d = abs(vec2(length(rel.xz), rel.y)) - vec2(radius, height * 0.5);
    return min(max(d.x, d.y), 0.0) + length(max(d, 0.0));
}
float sdf_torus(vec3 p, vec3 center, float major_radius, float minor_radius) {
    vec3 rel = center - p;
    vec3 ring = rel;
    ring.y = 0.0;
    if (ring == vec3(0.0, 0.0, 0.0)) {
        ring = vec3(1.0, 0.0, 0.0);
    }
    ring = major_radius * normalize(ring);
    return length(rel - ring) - minor_radius;
}
"@
}

/// Number of nodes of `o` that the generated shader names.
pub open spec fn nodes(o: Object) -> nat
    decreases o,
{
    match o {
        Object::PosModulo(_, _) => 0,
        Object::Inv(a) => nodes(*a) + 1,
        Object::Min(a, b) => nodes(*a) + nodes(*b) + 1,
        Object::Max(a, b) => nodes(*a) + nodes(*b) + 1,
        _ => 1,
    }
}

pub open spec fn nodes_all(objs: Seq<Object>) -> nat
    decreases objs.len(),
{
    if objs.len() == 0 {
        0
    } else {
        nodes_all(objs.drop_last()) + nodes(objs.last())
    }
}

/// `uint material_N = Iu;` then the start of `float distance_N = `.
pub open spec fn put_head(out: Seq<char>, n: nat, idx: nat) -> Seq<char> {
    let s = put_decimal(out + "uint material_"@, n);
    let s = put_decimal(s + " = "@, idx);
    let s = put_decimal(s + "u;\nfloat distance_"@, n);
    s + " = "@
}

/// Node `n` as the inversion of node `k`.
pub open spec fn put_inverse(out: Seq<char>, n: nat, k: nat) -> Seq<char> {
    let s = put_decimal(out + "uint material_"@, n);
    let s = put_decimal(s + " = material_"@, k);
    let s = put_decimal(s + ";\nfloat distance_"@, n);
    let s = put_decimal(s + " = -distance_"@, k);
    s + ";\n"@
}

/// Node `n` as node `a`, replaced by node `b` where `distance_b cmp distance_n`.
pub open spec fn put_choice(out: Seq<char>, n: nat, a: nat, b: nat, cmp: Seq<char>) -> Seq<char> {
    let s = put_decimal(out + "uint material_"@, n);
    let s = put_decimal(s + " = material_"@, a);
    let s = put_decimal(s + ";\nfloat distance_"@, n);
    let s = put_decimal(s + " = distance_"@, a);
    let s = put_decimal(s + ";\nif (distance_"@, b);
    let s = put_decimal(s + cmp + "distance_"@, n);
    let s = put_decimal(s + ") {\ndistance_"@, n);
    let s = put_decimal(s + " = distance_"@, b);
    let s = put_decimal(s + ";\nmaterial_"@, n);
    let s = put_decimal(s + " = material_"@, b);
    s + ";\n}\n"@
}

/// `out` followed by the GLSL statements of `o`, whose nodes are numbered from
/// `c` on, children before their parent; and the next free number. The last
/// node numbered is `o` itself.
pub open spec fn put_object(out: Seq<char>, o: Object, mats: Seq<(String, Material)>, c: nat) -> (Seq<char>, nat)
    decreases o,
{
    match o {
        Object::Sphere { center, radius, material } => {
            let s = put_head(out, c, material_of(mats, material@) as nat);
            let s = put_vec3(s + "sdf_sphere(position, "@, center);
            let s = put_float(s + ", "@, radius);
            (s + ");\n"@, c + 1)
        },
        Object::Box { lower_corner, upper_corner, material } => {
            let s = put_head(out, c, material_of(mats, material@) as nat);
            let s = put_vec3(s + "sdf_box(position, "@, lower_corner);
            let s = put_vec3(s + ", "@, upper_corner);
            (s + ");\n"@, c + 1)
        },
        Object::Cylinder { center, height, radius, material } => {
            let s = put_head(out, c, material_of(mats, material@) as nat);
            let s = put_vec3(s + "sdf_cylinder(position, "@, center);
            let s = put_float(s + ", "@, height);
            let s = put_float(s + ", "@, radius);
            (s + ");\n"@, c + 1)
        },
        Object::Torus { major_radius, minor_radius, center, material } => {
            let s = put_head(out, c, material_of(mats, material@) as nat);
            let s = put_vec3(s + "sdf_torus(position, "@, center);
            let s = put_float(s + ", "@, major_radius);
            let s = put_float(s + ", "@, minor_radius);
            (s + ");\n"@, c + 1)
        },
        Object::PosModulo(_, _) => (out, c),
        Object::Inv(a) => {
            let (s, ca) = put_object(out, *a, mats, c);
            (put_inverse(s, ca, (ca - 1) as nat), ca + 1)
        },
        Object::Min(a, b) => {
            let (s, ca) = put_object(out, *a, mats, c);
            let (s, cb) = put_object(s, *b, mats, ca);
            (put_choice(s, cb, (ca - 1) as nat, (cb - 1) as nat, " < "@), cb + 1)
        },
        Object::Max(a, b) => {
            let (s, ca) = put_object(out, *a, mats, c);
            let (s, cb) = put_object(s, *b, mats, ca);
            (put_choice(s, cb, (ca - 1) as nat, (cb - 1) as nat, " > "@), cb + 1)
        },
    }
}

/// Folds node `k` into the running nearest surface; the earlier object wins ties.
pub open spec fn put_union_step(out: Seq<char>, k: nat) -> Seq<char> {
    let s = put_decimal(out + "if (distance_"@, k);
    let s = put_decimal(s + " < running_lowest_distance) {\nrunning_lowest_distance = distance_"@, k);
    let s = put_decimal(s + ";\nrunning_lowest_mat = material_"@, k);
    s + ";\n}\n"@
}

/// `out` followed by the statements of the top-level objects, each folded into
/// the running nearest surface; and the next free node number.
pub open spec fn put_objects(out: Seq<char>, objs: Seq<Object>, mats: Seq<(String, Material)>) -> (Seq<char>, nat)
    decreases objs.len(),
{
    if objs.len() == 0 {
        (out, 0)
    } else {
        let (s, c) = put_objects(out, objs.drop_last(), mats);
        let (s, c2) = put_object(s, objs.last(), mats, c);
        (put_union_step(s, (c2 - 1) as nat), c2)
    }
}

/// The whole generated source: the primitive functions, then `sdf`, which
/// returns the distance to the nearest surface and its material index. With no
/// objects the distance is positive infinity.
pub open spec fn shader_text(objs: Seq<Object>, mats: Seq<(String, Material)>) -> Seq<char> {
    let s = Seq::<char>::empty() + prelude_text();
    let s = s + "vec2 sdf(vec3 position) {\nfloat running_lowest_distance = uintBitsToFloat(2139095040u);\nuint running_lowest_mat = 0u;\n"@;
    let s = put_objects(s, objs, mats).0;
    s + "return vec2(running_lowest_distance, float(running_lowest_mat));\n}\n"@
}

/// Why a world has no generated shader.
#[derive(Clone, Copy, Debug, PartialEq, Eq, Structural)]
pub enum ShaderError {
    /// More named materials than `u32` indices can tell apart.
    TooManyMaterials,
    /// Two materials share a name.
    DuplicateName,
    /// A `PosModulo` node: repetition has no shader form.
    Repetition,
    /// More nodes than the generated names number.
    TooManyNodes,
}


fn push_head(out: &mut String, n: u64, idx: u32)
    ensures
        final(out)@ == put_head(old(out)@, n as nat, idx as nat),
{
    out.append("uint material_");
    push_decimal(out, n);
    out.append(" = ");
    push_decimal(out, idx as u64);
    out.append("u;\nfloat distance_");
    push_decimal(out, n);
    out.append(" = ");
}

fn push_inverse(out: &mut String, n: u64, k: u64)
    ensures
        final(out)@ == put_inverse(old(out)@, n as nat, k as nat),
{
    out.append("uint material_");
    push_decimal(out, n);
    out.append(" = material_");
    push_decimal(out, k);
    out.append(";\nfloat distance_");
    push_decimal(out, n);
    out.append(" = -distance_");
    push_decimal(out, k);
    out.append(";\n");
}

fn push_choice(out: &mut String, n: u64, a: u64, b: u64, nearer: bool)
    ensures
        final(out)@ == put_choice(old(out)@, n as nat, a as nat, b as nat, if nearer {
            " < "@
        } else {
            " > "@
        }),
{
    out.append("uint material_");
    push_decimal(out, n);
    out.append(" = material_");
    push_decimal(out, a);
    out.append(";\nfloat distance_");
    push_decimal(out, n);
    out.append(" = distance_");
    push_decimal(out, a);
    out.append(";\nif (distance_");
    push_decimal(out, b);
    if nearer {
        out.append(" < ");
    } else {
        out.append(" > ");
    }
    out.append("distance_");
    push_decimal(out, n);
    out.append(") {\ndistance_");
    push_decimal(out, n);
    out.append(" = distance_");
    push_decimal(out, b);
    out.append(";\nmaterial_");
    push_decimal(out, n);
    out.append(" = material_");
    push_decimal(out, b);
    out.append(";\n}\n");
}

fn push_union_step(out: &mut String, k: u64)
    ensures
        final(out)@ == put_union_step(old(out)@, k as nat),
{
    out.append("if (distance_");
    push_decimal(out, k);
    out.append(" < running_lowest_distance) {\nrunning_lowest_distance = distance_");
    push_decimal(out, k);
    out.append(";\nrunning_lowest_mat = material_");
    push_decimal(out, k);
    out.append(";\n}\n");
}

/// Appends the statements of `obj`, numbering its nodes from `c`, and returns
/// the next free number.
fn push_object(out: &mut String, obj: &Object, mats: &Vec<(String, Material)>, c: u64) -> (r: u64)
    requires
        !repeats(*obj),
        mats.len() <= MAX_MATERIALS,
        c + nodes(*obj) <= MAX_NODES,
    ensures
        (final(out)@, r as nat) == put_object(old(out)@, *obj, mats@, c as nat),
        r == c + nodes(*obj),
        r > c,
    decreases obj,
{
    match obj {
        Object::Sphere { center, radius, material } => {
            push_head(out, c, find_material(mats, material));
            out.append("sdf_sphere(position, ");
            push_vec3(out, *center);
            out.append(", ");
            push_float(out, *radius);
            out.append(");\n");
            c + 1
        },
        Object::Box { lower_corner, upper_corner, material } => {
            push_head(out, c, find_material(mats, material));
            out.append("sdf_box(position, ");
            push_vec3(out, *lower_corner);
            out.append(", ");
            push_vec3(out, *upper_corner);
            out.append(");\n");
            c + 1
        },
        Object::Cylinder { center, height, radius, material } => {
            push_head(out, c, find_material(mats, material));
            out.append("sdf_cylinder(position, ");
            push_vec3(out, *center);
            out.append(", ");
            push_float(out, *height);
            out.append(", ");
            push_float(out, *radius);
            out.append(");\n");
            c + 1
        },
        Object::Torus { major_radius, minor_radius, center, material } => {
            push_head(out, c, find_material(mats, material));
            out.append("sdf_torus(position, ");
            push_vec3(out, *center);
            out.append(", ");
            push_float(out, *major_radius);
            out.append(", ");
            push_float(out, *minor_radius);
            out.append(");\n");
            c + 1
        },
        Object::PosModulo(_, _) => c,
        Object::Inv(a) => {
            let ca = push_object(out, a, mats, c);
            push_inverse(out, ca, ca - 1);
            ca + 1
        },
        Object::Min(a, b) => {
            let ca = push_object(out, a, mats, c);
            let cb = push_object(out, b, mats, ca);
            push_choice(out, cb, ca - 1, cb - 1, true);
            cb + 1
        },
        Object::Max(a, b) => {
            let ca = push_object(out, a, mats, c);
            let cb = push_object(out, b, mats, ca);
            push_choice(out, cb, ca - 1, cb - 1, false);
            cb + 1
        },
    }
}

impl Object {
    /// The number of nodes the generated shader names for the tree, or `cap`
    /// when that is more.
    pub fn node_count(&self, cap: u64) -> (r: u64)
        requires
            cap <= MAX_NODES + 1,
        ensures
            r == if nodes(*self) < cap { nodes(*self) } else { cap as nat },
        decreases self,
    {
        let total: u64 = match self {
            Object::PosModulo(_, _) => 0,
            Object::Inv(a) => a.node_count(cap) + 1,
            Object::Min(a, b) => a.node_count(cap) + b.node_count(cap) + 1,
            Object::Max(a, b) => a.node_count(cap) + b.node_count(cap) + 1,
            _ => 1,
        };
        if total < cap {
            total
        } else {
            cap
        }
    }
}

proof fn lemma_nodes_prefix(objs: Seq<Object>, k: int)
    requires
        0 <= k <= objs.len(),
    ensures
        nodes_all(objs.take(k)) <= nodes_all(objs),
    decreases objs.len(),
{
    if k < objs.len() {
        lemma_nodes_prefix(objs.drop_last(), k);
        assert(objs.drop_last().take(k) =~= objs.take(k));
    } else {
        assert(objs.take(k) =~= objs);
    }
}

impl World {
    /// Generates GLSL source of a function `vec2 sdf(vec3 position)` that
    /// returns the distance from `position` to the nearest surface of the world
    /// and that surface's material index, with the material table the indices
    /// refer to. Materials are numbered and resolved as in compilation: in
    /// lexicographic order of their names, with the fallback material closing
    /// the table only when some object names an unknown material.
    pub fn create_shader_function(&self) -> (r: Result<(String, Vec<Material>), ShaderError>)
        ensures
            (self.materials.len() > MAX_MATERIALS) <==> r == Err::<(String, Vec<Material>), ShaderError>(
                ShaderError::TooManyMaterials,
            ),
            (self.materials.len() <= MAX_MATERIALS && !names_unique(self.materials@)) <==> r == Err::<
                (String, Vec<Material>),
                ShaderError,
            >(ShaderError::DuplicateName),
            (self.materials.len() <= MAX_MATERIALS && names_unique(self.materials@) && repeats_any(
                self.objects@,
            )) <==> r == Err::<(String, Vec<Material>), ShaderError>(ShaderError::Repetition),
            (self.materials.len() <= MAX_MATERIALS && names_unique(self.materials@) && !repeats_any(
                self.objects@,
            ) && nodes_all(self.objects@) > MAX_NODES) <==> r == Err::<(String, Vec<Material>), ShaderError>(
                ShaderError::TooManyNodes,
            ),
            r is Ok ==> exists|order: Seq<(String, Material)>|
                #[trigger] names_sorted(order) && order.to_multiset() == self.materials@.to_multiset()
                    && r->Ok_0.0@ == shader_text(self.objects@, order) && r->Ok_0.1@ == material_table(
                    order,
                    needs_fallback(self.objects@, order),
                ),
    {
        if self.materials.len() > MAX_MATERIALS {
            return Err(ShaderError::TooManyMaterials);
        }
        if !names_distinct(&self.materials) {
            return Err(ShaderError::DuplicateName);
        }
        let n = self.objects.len();
        let mut k: usize = 0;
        while k < n
            invariant
                n == self.objects.len(),
                0 <= k <= n,
                self.materials.len() <= MAX_MATERIALS,
                names_unique(self.materials@),
                forall|j: int| 0 <= j < k ==> !repeats(#[trigger] self.objects@[j]),
            decreases n - k,
        {
            if self.objects[k].contains_repetition() {
                assert(repeats(self.objects@[k as int]));
                return Err(ShaderError::Repetition);
            }
            k = k + 1;
        }
        let cap: u64 = MAX_NODES + 1;
        let mut total: u64 = 0;
        k = 0;
        while k < n
            invariant
                n == self.objects.len(),
                0 <= k <= n,
                cap == MAX_NODES + 1,
                self.materials.len() <= MAX_MATERIALS,
                names_unique(self.materials@),
                forall|j: int| 0 <= j < n ==> !repeats(#[trigger] self.objects@[j]),
                total == if nodes_all(self.objects@.take(k as int)) < cap {
                    nodes_all(self.objects@.take(k as int))
                } else {
                    cap as nat
                },
            decreases n - k,
        {
            let s = self.objects[k].node_count(cap);
            assert(self.objects@.take(k + 1).drop_last() =~= self.objects@.take(k as int));
            total = if total + s < cap {
                total + s
            } else {
                cap
            };
            k = k + 1;
        }
        assert(self.objects@.take(n as int) =~= self.objects@);
        if total == cap {
            return Err(ShaderError::TooManyNodes);
        }
        let order = sorted_by_name(&self.materials);
        let mut out = String::new();
        out.append("float sdf_sphere(vec3 p, vec3 center, float radius) {
    return distance(center, p) - radius;
}
float sdf_box(vec3 p, vec3 lower, vec3 upper) {
    vec3 offset = abs(p - (lower + upper) * 0.5) - (upper - lower) * 0.5;
    return length(max(offset, 0.0)) + min(max(offset.x, max(offset.y, offset.z)), 0.0);
}
float sdf_cylinder(vec3 p, vec3 center, float height, float radius) {
    vec3 rel = center - p;
    vec2 d = abs(vec2(length(rel.xz), rel.y)) - vec2(radius, height * 0.5);
    return min(max(d.x, d.y), 0.0) + length(max(d, 0.0));
}
float sdf_torus(vec3 p, vec3 center, float major_radius, float minor_radius) {
    vec3 rel = center - p;
    vec3 ring = rel;
    ring.y = 0.0;
    if (ring == vec3(0.0, 0.0, 0.0)) {
        ring = vec3(1.0, 0.0, 0.0);
    }
    ring = major_radius * normalize(ring);
    return length(rel - ring) - minor_radius;
}
");
        out.append("vec2 sdf(vec3 position) {\nfloat running_lowest_distance = uintBitsToFloat(2139095040u);\nuint running_lowest_mat = 0u;\n");
        let ghost start = out@;
        let mut counter: u64 = 0;
        k = 0;
        while k < n
            invariant
                n == self.objects.len(),
                0 <= k <= n,
                order@.len() <= MAX_MATERIALS,
                nodes_all(self.objects@) <= MAX_NODES,
                forall|j: int| 0 <= j < n ==> !repeats(#[trigger] self.objects@[j]),
                (out@, counter as nat) == put_objects(start, self.objects@.take(k as int), order@),
                counter == nodes_all(self.objects@.take(k as int)),
            decreases n - k,
        {
            proof {
                lemma_nodes_prefix(self.objects@, k + 1);
                assert(self.objects@.take(k + 1).drop_last() =~= self.objects@.take(k as int));
            }
            let next = push_object(&mut out, &self.objects[k], &order, counter);
            push_union_step(&mut out, next - 1);
            counter = next;
            k = k + 1;
        }
        out.append("return vec2(running_lowest_distance, float(running_lowest_mat));\n}\n");
        let fallback = any_unknown(&self.objects, &order);
        let table = material_table_of(&order, fallback);
        proof {
            assert(names_sorted(order@));
        }
        Ok((out, table))
    }
}

} // verus!
