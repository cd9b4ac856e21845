use vstd::prelude::*;

use crate::order::{names_distinct, names_sorted, names_unique, sorted_by_name};
use crate::scene::{black_material, Material, Object, World};

verus! {

/// Reference indices are read back as single-precision floats, which hold every
/// integer up to this bound exactly.
pub const MAX_REFERENCES: u64 = 16_777_216;

/// Material indices are `u32`, and one index past the named materials is kept
/// for the fallback material.
pub const MAX_MATERIALS: usize = 4_294_967_295;

/// What a record computes.
#[derive(Clone, Copy, Debug, PartialEq, Eq, Structural)]
pub enum Op {
    Sphere,
    Box,
    Inv,
    Max,
    Min,
    Torus,
    Cylinder,
}

impl Op {
    /// The numeric tag that the GPU evaluator switches on.
    pub open spec fn spec_code(self) -> u32 {
        match self {
            Op::Sphere => 0,
            Op::Box => 1,
            Op::Inv => 3,
            Op::Max => 4,
            Op::Min => 5,
            Op::Torus => 6,
            Op::Cylinder => 7,
        }
    }

    pub fn code(&self) -> (r: u32)
        ensures
            r == self.spec_code(),
    {
        match self {
            Op::Sphere => 0,
            Op::Box => 1,
            Op::Inv => 3,
            Op::Max => 4,
            Op::Min => 5,
            Op::Torus => 6,
            Op::Cylinder => 7,
        }
    }

    /// Combinators read earlier results through references; primitives read
    /// their geometry arguments.
    pub open spec fn is_combinator(self) -> bool {
        self is Inv || self is Max || self is Min
    }

    pub fn has_references(&self) -> (r: bool)
        ensures
            r == self.is_combinator(),
    {
        match self {
            Op::Inv | Op::Max | Op::Min => true,
            _ => false,
        }
    }
}

/// Four words of arguments (single-precision bit patterns).
#[derive(Clone, Copy, Debug, PartialEq, Eq, Structural)]
pub struct Quad {
    pub x: u32,
    pub y: u32,
    pub z: u32,
    pub w: u32,
}

pub open spec fn zero_quad() -> Quad {
    Quad { x: 0, y: 0, z: 0, w: 0 }
}

/// One fixed-size entry of the compiled object buffer.
///
/// A record with `referred` set stores its result in the next free slot, so
/// the slot of a record is the number of referred records before it. A
/// combinator names the slots of its operands in `first_ref` (and, for `Min`
/// and `Max`, `second_ref`). Records with `rendered` set take part in the
/// implicit union of the top-level objects.
#[derive(Clone, Copy, Debug, PartialEq, Eq, Structural)]
pub struct Record {
    pub op: Op,
    pub material: u32,
    pub referred: bool,
    pub rendered: bool,
    pub args1: Quad,
    pub args2: Quad,
    pub first_ref: u32,
    pub second_ref: u32,
}

/// The flat form of a scene: object records and the material table they index.
#[derive(Debug)]
pub struct CompiledScene {
    pub objects: Vec<Record>,
    pub materials: Vec<Material>,
}

/// Why a scene has no flat form.
#[derive(Clone, Copy, Debug, PartialEq, Eq, Structural)]
pub enum CompileError {
    /// More named materials than `u32` indices can tell apart.
    TooManyMaterials,
    /// Two materials share a name.
    DuplicateName,
    /// A `PosModulo` node: repetition has no flat form.
    Repetition,
    /// More result slots than references can address.
    TooManyReferences,
}

/// Number of result slots that the records of `o` occupy below its own
/// terminal record.
pub open spec fn slots(o: Object) -> nat
    decreases o,
{
    match o {
        Object::Inv(a) => slots(*a) + 1,
        Object::Min(a, b) => slots(*a) + slots(*b) + 2,
        Object::Max(a, b) => slots(*a) + slots(*b) + 2,
        _ => 0,
    }
}

/// `o` contains a `PosModulo` node.
pub open spec fn repeats(o: Object) -> bool
    decreases o,
{
    match o {
        Object::PosModulo(_, _) => true,
        Object::Inv(a) => repeats(*a),
        Object::Min(a, b) => repeats(*a) || repeats(*b),
        Object::Max(a, b) => repeats(*a) || repeats(*b),
        _ => false,
    }
}

pub open spec fn slots_all(objs: Seq<Object>) -> nat
    decreases objs.len(),
{
    if objs.len() == 0 {
        0
    } else {
        slots_all(objs.drop_last()) + slots(objs.last())
    }
}

pub open spec fn repeats_any(objs: Seq<Object>) -> bool {
    exists|i: int| 0 <= i < objs.len() && repeats(#[trigger] objs[i])
}

/// Index of the first material named `name` at or after `from`, or the number
/// of materials when there is none.
pub open spec fn find_material_from(mats: Seq<(String, Material)>, name: Seq<char>, from: int) -> int
    decreases mats.len() - from,
{
    if from < 0 || from >= mats.len() {
        mats.len() as int
    } else if mats[from].0@ == name {
        from
    } else {
        find_material_from(mats, name, from + 1)
    }
}

/// The index that the material name `name` resolves to: its first occurrence,
/// or one past the named materials (the fallback) when it is unknown.
pub open spec fn material_of(mats: Seq<(String, Material)>, name: Seq<char>) -> int {
    find_material_from(mats, name, 0)
}

pub open spec fn primitive(op: Op, material: int, referred: bool, rendered: bool, args1: Quad, args2: Quad) -> Record {
    Record { op, material: material as u32, referred, rendered, args1, args2, first_ref: 0, second_ref: 0 }
}

pub open spec fn combinator(op: Op, referred: bool, rendered: bool, first_ref: nat, second_ref: nat) -> Record {
    Record {
        op,
        material: 0,
        referred,
        rendered,
        args1: zero_quad(),
        args2: zero_quad(),
        first_ref: first_ref as u32,
        second_ref: second_ref as u32,
    }
}

/// The records of `o`, children before their parent, when the slots before it
/// number `base`.
pub open spec fn flatten(o: Object, mats: Seq<(String, Material)>, rendered: bool, referred: bool, base: nat) -> Seq<Record>
    decreases o,
{
    match o {
        Object::Sphere { center, radius, material } => seq![primitive(
            Op::Sphere, material_of(mats, material@), referred, rendered,
            Quad { x: center.x, y: center.y, z: center.z, w: radius }, zero_quad(),
        )],
        Object::Box { lower_corner, upper_corner, material } => seq![primitive(
            Op::Box, material_of(mats, material@), referred, rendered,
            Quad { x: lower_corner.x, y: lower_corner.y, z: lower_corner.z, w: 0 },
            Quad { x: upper_corner.x, y: upper_corner.y, z: upper_corner.z, w: 0 },
        )],
        Object::Cylinder { center, height, radius, material } => seq![primitive(
            Op::Cylinder, material_of(mats, material@), referred, rendered,
            Quad { x: center.x, y: center.y, z: center.z, w: height },
            Quad { x: radius, y: 0, z: 0, w: 0 },
        )],
        Object::Torus { major_radius, minor_radius, center, material } => seq![primitive(
            Op::Torus, material_of(mats, material@), referred, rendered,
            Quad { x: center.x, y: center.y, z: center.z, w: major_radius },
            Quad { x: minor_radius, y: 0, z: 0, w: 0 },
        )],
        Object::PosModulo(_, _) => seq![],
        Object::Inv(a) => flatten(*a, mats, false, true, base) + seq![
            combinator(Op::Inv, referred, rendered, base + slots(*a), 0)],
        Object::Min(a, b) => flatten(*a, mats, false, true, base) + flatten(
            *b, mats, false, true, base + slots(*a) + 1,
        ) + seq![combinator(Op::Min, referred, rendered, base + slots(*a), base + slots(*a) + 1 + slots(*b))],
        Object::Max(a, b) => flatten(*a, mats, false, true, base) + flatten(
            *b, mats, false, true, base + slots(*a) + 1,
        ) + seq![combinator(Op::Max, referred, rendered, base + slots(*a), base + slots(*a) + 1 + slots(*b))],
    }
}

/// The records of a list of top-level objects, one after the other.
pub open spec fn flatten_all(objs: Seq<Object>, mats: Seq<(String, Material)>) -> Seq<Record>
    decreases objs.len(),
{
    if objs.len() == 0 {
        seq![]
    } else {
        flatten_all(objs.drop_last(), mats) + flatten(objs.last(), mats, true, false, slots_all(objs.drop_last()))
    }
}

/// Some primitive of `o` names a material that `mats` does not hold.
pub open spec fn names_unknown(o: Object, mats: Seq<(String, Material)>) -> bool
    decreases o,
{
    match o {
        Object::Sphere { material, .. } => material_of(mats, material@) == mats.len(),
        Object::Box { material, .. } => material_of(mats, material@) == mats.len(),
        Object::Cylinder { material, .. } => material_of(mats, material@) == mats.len(),
        Object::Torus { material, .. } => material_of(mats, material@) == mats.len(),
        Object::PosModulo(_, _) => false,
        Object::Inv(a) => names_unknown(*a, mats),
        Object::Min(a, b) => names_unknown(*a, mats) || names_unknown(*b, mats),
        Object::Max(a, b) => names_unknown(*a, mats) || names_unknown(*b, mats),
    }
}

/// Some object names a material that `mats` does not hold, so the table needs
/// the fallback material.
pub open spec fn needs_fallback(objs: Seq<Object>, mats: Seq<(String, Material)>) -> bool {
    exists|i: int| 0 <= i < objs.len() && names_unknown(#[trigger] objs[i], mats)
}

/// The material table of the compiled form: the named materials in their order,
/// then the fallback when it is needed.
pub open spec fn material_table(mats: Seq<(String, Material)>, fallback: bool) -> Seq<Material> {
    if fallback {
        mats.map_values(|p: (String, Material)| p.1).push(black_material())
    } else {
        mats.map_values(|p: (String, Material)| p.1)
    }
}


/// Index of the material named `name`; unknown names give one past the end.
pub(crate) fn find_material(mats: &Vec<(String, Material)>, name: &String) -> (r: u32)
    requires
        mats.len() <= MAX_MATERIALS,
    ensures
        r == material_of(mats@, name@),
{
    let mut i: usize = 0;
    while i < mats.len()
        invariant
            0 <= i <= mats.len(),
            mats.len() <= MAX_MATERIALS,
            find_material_from(mats@, name@, i as int) == material_of(mats@, name@),
        decreases mats.len() - i,
    {
        if mats[i].0 == *name {
            return i as u32;
        }
        i = i + 1;
    }
    i as u32
}

impl Object {
    /// Whether the tree holds a `PosModulo` node.
    pub fn contains_repetition(&self) -> (r: bool)
        ensures
            r == repeats(*self),
        decreases self,
    {
        match self {
            Object::PosModulo(_, _) => true,
            Object::Inv(a) => a.contains_repetition(),
            Object::Min(a, b) => a.contains_repetition() || b.contains_repetition(),
            Object::Max(a, b) => a.contains_repetition() || b.contains_repetition(),
            _ => false,
        }
    }

    /// The number of result slots the tree needs, or `cap` when that is more.
    pub fn slot_count(&self, cap: u64) -> (r: u64)
        requires
            cap <= MAX_REFERENCES + 1,
        ensures
            r == if slots(*self) < cap { slots(*self) } else { cap as nat },
        decreases self,
    {
        let total: u64 = match self {
            Object::Inv(a) => a.slot_count(cap) + 1,
            Object::Min(a, b) => a.slot_count(cap) + b.slot_count(cap) + 2,
            Object::Max(a, b) => a.slot_count(cap) + b.slot_count(cap) + 2,
            _ => 0,
        };
        if total < cap {
            total
        } else {
            cap
        }
    }
}

/// The records of `obj` when the slots before it number `base`, and the number
/// of slots they occupy below the terminal record.
fn object_to_raw(
    obj: &Object,
    mats: &Vec<(String, Material)>,
    rendered: bool,
    referred: bool,
    base: u32,
) -> (r: (Vec<Record>, u32))
    requires
        !repeats(*obj),
        mats.len() <= MAX_MATERIALS,
        base + slots(*obj) <= MAX_REFERENCES,
    ensures
        r.0@ == flatten(*obj, mats@, rendered, referred, base as nat),
        r.1 == slots(*obj),
    decreases obj,
{
    let zero = Quad { x: 0, y: 0, z: 0, w: 0 };
    match obj {
        Object::Sphere { center, radius, material } => {
            let record = Record {
                op: Op::Sphere,
                material: find_material(mats, material),
                referred,
                rendered,
                args1: Quad { x: center.x, y: center.y, z: center.z, w: *radius },
                args2: zero,
                first_ref: 0,
                second_ref: 0,
            };
            let v = vec![record];
            (v, 0)
        }
        Object::Box { lower_corner, upper_corner, material } => {
            let record = Record {
                op: Op::Box,
                material: find_material(mats, material),
                referred,
                rendered,
                args1: Quad { x: lower_corner.x, y: lower_corner.y, z: lower_corner.z, w: 0 },
                args2: Quad { x: upper_corner.x, y: upper_corner.y, z: upper_corner.z, w: 0 },
                first_ref: 0,
                second_ref: 0,
            };
            let v = vec![record];
            (v, 0)
        }
        Object::Cylinder { center, height, radius, material } => {
            let record = Record {
                op: Op::Cylinder,
                material: find_material(mats, material),
                referred,
                rendered,
                args1: Quad { x: center.x, y: center.y, z: center.z, w: *height },
                args2: Quad { x: *radius, y: 0, z: 0, w: 0 },
                first_ref: 0,
                second_ref: 0,
            };
            let v = vec![record];
            (v, 0)
        }
        Object::Torus { major_radius, minor_radius, center, material } => {
            let record = Record {
                op: Op::Torus,
                material: find_material(mats, material),
                referred,
                rendered,
                args1: Quad { x: center.x, y: center.y, z: center.z, w: *major_radius },
                args2: Quad { x: *minor_radius, y: 0, z: 0, w: 0 },
                first_ref: 0,
                second_ref: 0,
            };
            let v = vec![record];
            (v, 0)
        }
        Object::PosModulo(_, _) => (Vec::new(), 0),
        Object::Inv(a) => {
            let (mut inner, used) = object_to_raw(a, mats, false, true, base);
            inner.push(
                Record {
                    op: Op::Inv,
                    material: 0,
                    referred,
                    rendered,
                    args1: zero,
                    args2: zero,
                    first_ref: base + used,
                    second_ref: 0,
                },
            );
            (inner, used + 1)
        }
        Object::Min(a, b) => {
            let (mut inner, used_a) = object_to_raw(a, mats, false, true, base);
            let next = base + used_a + 1;
            let (mut inner_b, used_b) = object_to_raw(b, mats, false, true, next);
            inner.append(&mut inner_b);
            inner.push(
                Record {
                    op: Op::Min,
                    material: 0,
                    referred,
                    rendered,
                    args1: zero,
                    args2: zero,
                    first_ref: next - 1,
                    second_ref: next + used_b,
                },
            );
            (inner, used_a + used_b + 2)
        }
        Object::Max(a, b) => {
            let (mut inner, used_a) = object_to_raw(a, mats, false, true, base);
            let next = base + used_a + 1;
            let (mut inner_b, used_b) = object_to_raw(b, mats, false, true, next);
            inner.append(&mut inner_b);
            inner.push(
                Record {
                    op: Op::Max,
                    material: 0,
                    referred,
                    rendered,
                    args1: zero,
                    args2: zero,
                    first_ref: next - 1,
                    second_ref: next + used_b,
                },
            );
            (inner, used_a + used_b + 2)
        }
    }
}


/// Number of records in `s` that store their result in a slot.
pub open spec fn referred_count(s: Seq<Record>) -> nat
    decreases s.len(),
{
    if s.len() == 0 {
        0
    } else {
        referred_count(s.drop_last()) + if s.last().referred {
            1nat
        } else {
            0nat
        }
    }
}

/// Every combinator of `s` reads only slots that were filled before it, when
/// `base` slots were filled before `s` began.
pub open spec fn refs_below(s: Seq<Record>, base: nat) -> bool {
    forall|i: int|
        0 <= i < s.len() && (#[trigger] s[i]).op.is_combinator() ==> s[i].first_ref < base
            + referred_count(s.take(i)) && s[i].second_ref < base + referred_count(s.take(i))
}

/// Every combinator record reads slots filled by records before it: each of its
/// references is below the number of referred records that precede it, and so
/// below its own index.
pub open spec fn references_backward(s: Seq<Record>) -> bool {
    forall|i: int|
        0 <= i < s.len() && (#[trigger] s[i]).op.is_combinator() ==> {
            &&& s[i].first_ref < referred_count(s.take(i))
            &&& s[i].second_ref < referred_count(s.take(i))
            &&& s[i].first_ref < i
            &&& s[i].second_ref < i
        }
}

pub(crate) proof fn lemma_referred_count_concat(a: Seq<Record>, b: Seq<Record>)
    ensures
        referred_count(a + b) == referred_count(a) + referred_count(b),
    decreases b.len(),
{
    if b.len() == 0 {
        assert(a + b =~= a);
    } else {
        lemma_referred_count_concat(a, b.drop_last());
        assert((a + b).drop_last() =~= a + b.drop_last());
    }
}

proof fn lemma_referred_count_bound(s: Seq<Record>)
    ensures
        referred_count(s) <= s.len(),
    decreases s.len(),
{
    if s.len() > 0 {
        lemma_referred_count_bound(s.drop_last());
    }
}

proof fn lemma_refs_below_concat(a: Seq<Record>, b: Seq<Record>, base: nat)
    requires
        refs_below(a, base),
        refs_below(b, base + referred_count(a)),
    ensures
        refs_below(a + b, base),
{
    assert forall|i: int| 0 <= i < (a + b).len() && (#[trigger] (a + b)[i]).op.is_combinator() implies (
    a + b)[i].first_ref < base + referred_count((a + b).take(i)) && (a + b)[i].second_ref < base
        + referred_count((a + b).take(i)) by {
        if i < a.len() {
            assert((a + b).take(i) =~= a.take(i));
            assert((a + b)[i] == a[i]);
        } else {
            let j = i - a.len();
            assert((a + b).take(i) =~= a + b.take(j));
            assert((a + b)[i] == b[j]);
            lemma_referred_count_concat(a, b.take(j));
        }
    }
}

proof fn lemma_single_count(r: Record)
    ensures
        referred_count(seq![r]) == if r.referred {
            1nat
        } else {
            0nat
        },
{
    assert(seq![r].drop_last() =~= Seq::<Record>::empty());
    assert(referred_count(Seq::<Record>::empty()) == 0);
}

pub(crate) proof fn lemma_flatten(o: Object, mats: Seq<(String, Material)>, rendered: bool, referred: bool, base: nat)
    requires
        !repeats(o),
        base + slots(o) <= MAX_REFERENCES,
    ensures
        referred_count(flatten(o, mats, rendered, referred, base)) == slots(o) + if referred {
            1nat
        } else {
            0nat
        },
        refs_below(flatten(o, mats, rendered, referred, base), base),
    decreases o,
{
    let f = flatten(o, mats, rendered, referred, base);
    match o {
        Object::Inv(a) => {
            let fa = flatten(*a, mats, false, true, base);
            let m = seq![combinator(Op::Inv, referred, rendered, base + slots(*a), 0)];
            lemma_flatten(*a, mats, false, true, base);
            lemma_single_count(m[0]);
            assert(m.take(0) =~= Seq::<Record>::empty());
            assert(refs_below(m, base + referred_count(fa)));
            lemma_refs_below_concat(fa, m, base);
            lemma_referred_count_concat(fa, m);
        }
        Object::Min(a, b) => {
            let fa = flatten(*a, mats, false, true, base);
            let fb = flatten(*b, mats, false, true, base + slots(*a) + 1);
            let m = seq![combinator(Op::Min, referred, rendered, base + slots(*a), base + slots(*a) + 1 + slots(*b))];
            lemma_flatten(*a, mats, false, true, base);
            lemma_flatten(*b, mats, false, true, base + slots(*a) + 1);
            lemma_refs_below_concat(fa, fb, base);
            lemma_referred_count_concat(fa, fb);
            lemma_single_count(m[0]);
            assert(m.take(0) =~= Seq::<Record>::empty());
            assert(refs_below(m, base + referred_count(fa + fb)));
            lemma_refs_below_concat(fa + fb, m, base);
            lemma_referred_count_concat(fa + fb, m);
        }
        Object::Max(a, b) => {
            let fa = flatten(*a, mats, false, true, base);
            let fb = flatten(*b, mats, false, true, base + slots(*a) + 1);
            let m = seq![combinator(Op::Max, referred, rendered, base + slots(*a), base + slots(*a) + 1 + slots(*b))];
            lemma_flatten(*a, mats, false, true, base);
            lemma_flatten(*b, mats, false, true, base + slots(*a) + 1);
            lemma_refs_below_concat(fa, fb, base);
            lemma_referred_count_concat(fa, fb);
            lemma_single_count(m[0]);
            assert(m.take(0) =~= Seq::<Record>::empty());
            assert(refs_below(m, base + referred_count(fa + fb)));
            lemma_refs_below_concat(fa + fb, m, base);
            lemma_referred_count_concat(fa + fb, m);
        }
        Object::PosModulo(_, _) => {},
        _ => {
            lemma_single_count(f[0]);
            assert(f =~= seq![f[0]]);
        },
    }
}

proof fn lemma_flatten_all(objs: Seq<Object>, mats: Seq<(String, Material)>)
    requires
        forall|i: int| 0 <= i < objs.len() ==> !repeats(#[trigger] objs[i]),
        slots_all(objs) <= MAX_REFERENCES,
    ensures
        referred_count(flatten_all(objs, mats)) == slots_all(objs),
        refs_below(flatten_all(objs, mats), 0),
    decreases objs.len(),
{
    if objs.len() == 0 {
        assert(flatten_all(objs, mats) =~= Seq::<Record>::empty());
    } else {
        let rest = objs.drop_last();
        assert forall|i: int| 0 <= i < rest.len() implies !repeats(#[trigger] rest[i]) by {
            assert(rest[i] == objs[i]);
        }
        assert(!repeats(objs[objs.len() - 1]));
        lemma_flatten_all(rest, mats);
        lemma_flatten(objs.last(), mats, true, false, slots_all(rest));
        lemma_refs_below_concat(
            flatten_all(rest, mats),
            flatten(objs.last(), mats, true, false, slots_all(rest)),
            0,
        );
        lemma_referred_count_concat(
            flatten_all(rest, mats),
            flatten(objs.last(), mats, true, false, slots_all(rest)),
        );
    }
}

/// In the compiled form of any scene without repetition whose slots can be
/// addressed, every combinator record refers only to slots filled by records
/// that stand before it in the buffer, so one forward pass resolves them all.
pub proof fn lemma_references_backward(objs: Seq<Object>, mats: Seq<(String, Material)>)
    requires
        forall|i: int| 0 <= i < objs.len() ==> !repeats(#[trigger] objs[i]),
        slots_all(objs) <= MAX_REFERENCES,
    ensures
        references_backward(flatten_all(objs, mats)),
{
    let s = flatten_all(objs, mats);
    lemma_flatten_all(objs, mats);
    assert forall|i: int| 0 <= i < s.len() && (#[trigger] s[i]).op.is_combinator() implies {
        &&& s[i].first_ref < referred_count(s.take(i))
        &&& s[i].second_ref < referred_count(s.take(i))
        &&& s[i].first_ref < i
        &&& s[i].second_ref < i
    } by {
        lemma_referred_count_bound(s.take(i));
    }
}

/// The material table of the compiled form.
pub(crate) fn material_table_of(mats: &Vec<(String, Material)>, fallback: bool) -> (r: Vec<Material>)
    ensures
        r@ == material_table(mats@, fallback),
{
    let mut table: Vec<Material> = Vec::new();
    let mut i: usize = 0;
    while i < mats.len()
        invariant
            0 <= i <= mats.len(),
            table@ == mats@.take(i as int).map_values(|p: (String, Material)| p.1),
        decreases mats.len() - i,
    {
        table.push(mats[i].1);
        assert(mats@.take(i + 1).map_values(|p: (String, Material)| p.1) =~= table@);
        i = i + 1;
    }
    assert(mats@.take(i as int) =~= mats@);
    if fallback {
        table.push(Material::black());
    }
    table
}

fn unknown_in(obj: &Object, mats: &Vec<(String, Material)>) -> (r: bool)
    requires
        mats.len() <= MAX_MATERIALS,
    ensures
        r == names_unknown(*obj, mats@),
    decreases obj,
{
    match obj {
        Object::Sphere { material, .. } => find_material(mats, material) as usize == mats.len(),
        Object::Box { material, .. } => find_material(mats, material) as usize == mats.len(),
        Object::Cylinder { material, .. } => find_material(mats, material) as usize == mats.len(),
        Object::Torus { material, .. } => find_material(mats, material) as usize == mats.len(),
        Object::PosModulo(_, _) => false,
        Object::Inv(a) => unknown_in(a, mats),
        Object::Min(a, b) => unknown_in(a, mats) || unknown_in(b, mats),
        Object::Max(a, b) => unknown_in(a, mats) || unknown_in(b, mats),
    }
}

/// Whether some object names a material that `mats` does not hold.
pub(crate) fn any_unknown(objs: &Vec<Object>, mats: &Vec<(String, Material)>) -> (r: bool)
    requires
        mats.len() <= MAX_MATERIALS,
    ensures
        r == needs_fallback(objs@, mats@),
{
    let mut k: usize = 0;
    while k < objs.len()
        invariant
            k <= objs@.len(),
            mats.len() <= MAX_MATERIALS,
            forall|j: int| 0 <= j < k ==> !names_unknown(#[trigger] objs@[j], mats@),
        decreases objs@.len() - k,
    {
        if unknown_in(&objs[k], mats) {
            assert(names_unknown(objs@[k as int], mats@));
            return true;
        }
        k = k + 1;
    }
    false
}

proof fn lemma_slots_prefix(objs: Seq<Object>, k: int)
    requires
        0 <= k <= objs.len(),
    ensures
        slots_all(objs.take(k)) <= slots_all(objs),
    decreases objs.len(),
{
    if k < objs.len() {
        lemma_slots_prefix(objs.drop_last(), k);
        assert(objs.drop_last().take(k) =~= objs.take(k));
    } else {
        assert(objs.take(k) =~= objs);
    }
}

/// Flattens a world into object records and a material table.
///
/// Materials are numbered in lexicographic order of their names (by UTF-8
/// bytes), whatever order `world.materials` lists them in. An unknown name
/// resolves to the fallback material, which closes the table only when some
/// object names an unknown material. Scenes with two materials of one name,
/// with repetition, with more slots than references can address, or with more
/// materials than indices are refused.
pub fn compile(world: &World) -> (r: Result<CompiledScene, CompileError>)
    ensures
        (world.materials.len() > MAX_MATERIALS) <==> r == Err::<CompiledScene, CompileError>(
            CompileError::TooManyMaterials,
        ),
        (world.materials.len() <= MAX_MATERIALS && !names_unique(world.materials@)) <==> r == Err::<
            CompiledScene,
            CompileError,
        >(CompileError::DuplicateName),
        (world.materials.len() <= MAX_MATERIALS && names_unique(world.materials@) && repeats_any(
            world.objects@,
        )) <==> r == Err::<CompiledScene, CompileError>(CompileError::Repetition),
        (world.materials.len() <= MAX_MATERIALS && names_unique(world.materials@) && !repeats_any(
            world.objects@,
        ) && slots_all(world.objects@) > MAX_REFERENCES) <==> r == Err::<CompiledScene, CompileError>(
            CompileError::TooManyReferences,
        ),
        r is Ok ==> exists|order: Seq<(String, Material)>|
            #[trigger] names_sorted(order) && order.to_multiset() == world.materials@.to_multiset()
                && r->Ok_0.objects@ == flatten_all(world.objects@, order) && r->Ok_0.materials@
                == material_table(order, needs_fallback(world.objects@, order)),
        r is Ok ==> references_backward(r->Ok_0.objects@),
{
    if world.materials.len() > MAX_MATERIALS {
        return Err(CompileError::TooManyMaterials);
    }
    if !names_distinct(&world.materials) {
        return Err(CompileError::DuplicateName);
    }
    let n = world.objects.len();
    let mut k: usize = 0;
    while k < n
        invariant
            n == world.objects.len(),
            0 <= k <= n,
            world.materials.len() <= MAX_MATERIALS,
            names_unique(world.materials@),
            forall|j: int| 0 <= j < k ==> !repeats(#[trigger] world.objects@[j]),
        decreases n - k,
    {
        if world.objects[k].contains_repetition() {
            assert(repeats(world.objects@[k as int]));
            return Err(CompileError::Repetition);
        }
        k = k + 1;
    }
    let cap: u64 = MAX_REFERENCES + 1;
    let mut total: u64 = 0;
    k = 0;
    while k < n
        invariant
            n == world.objects.len(),
            0 <= k <= n,
            cap == MAX_REFERENCES + 1,
            world.materials.len() <= MAX_MATERIALS,
            names_unique(world.materials@),
            forall|j: int| 0 <= j < n ==> !repeats(#[trigger] world.objects@[j]),
            total == if slots_all(world.objects@.take(k as int)) < cap {
                slots_all(world.objects@.take(k as int))
            } else {
                cap as nat
            },
        decreases n - k,
    {
        let s = world.objects[k].slot_count(cap);
        assert(world.objects@.take(k + 1).drop_last() =~= world.objects@.take(k as int));
        total = if total + s < cap {
            total + s
        } else {
            cap
        };
        k = k + 1;
    }
    assert(world.objects@.take(n as int) =~= world.objects@);
    if total == cap {
        return Err(CompileError::TooManyReferences);
    }
    let order = sorted_by_name(&world.materials);
    let mut records: Vec<Record> = Vec::new();
    let mut used: u32 = 0;
    k = 0;
    while k < n
        invariant
            n == world.objects.len(),
            0 <= k <= n,
            order@.len() <= MAX_MATERIALS,
            slots_all(world.objects@) <= MAX_REFERENCES,
            forall|j: int| 0 <= j < n ==> !repeats(#[trigger] world.objects@[j]),
            records@ == flatten_all(world.objects@.take(k as int), order@),
            used == slots_all(world.objects@.take(k as int)),
        decreases n - k,
    {
        proof {
            lemma_slots_prefix(world.objects@, k + 1);
            assert(world.objects@.take(k + 1).drop_last() =~= world.objects@.take(k as int));
        }
        let (mut chunk, u) = object_to_raw(&world.objects[k], &order, true, false, used);
        records.append(&mut chunk);
        used = used + u;
        k = k + 1;
    }
    proof {
        assert(world.objects@.take(n as int) =~= world.objects@);
        lemma_references_backward(world.objects@, order@);
    }
    let fallback = any_unknown(&world.objects, &order);
    let table = material_table_of(&order, fallback);
    proof {
        assert(names_sorted(order@));
    }
    Ok(CompiledScene { objects: records, materials: table })
}

} // verus!
