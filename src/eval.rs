use vstd::prelude::*;

use crate::compile::{
    lemma_flatten, lemma_referred_count_concat, flatten, flatten_all, referred_count, references_backward,
    repeats, slots, Op, Record, MAX_REFERENCES,
};
use crate::scene::{Material, Object};

verus! {

/// What the evaluation of a record yields at one point: a signed distance (in
/// any fixed unit; negative inside) and the index of the nearest surface's
/// material.
#[derive(Clone, Copy, Debug, PartialEq, Eq, Structural)]
pub struct Sample {
    pub distance: i64,
    pub material: u32,
}

/// The union of two samples: the nearer one, the first on a tie.
pub open spec fn nearer(a: Sample, b: Sample) -> Sample {
    if a.distance <= b.distance {
        a
    } else {
        b
    }
}

/// The intersection of two samples: the farther one, the first on a tie.
pub open spec fn farther(a: Sample, b: Sample) -> Sample {
    if a.distance >= b.distance {
        a
    } else {
        b
    }
}

/// A sample with inside and outside swapped.
pub open spec fn inverted(a: Sample) -> Sample {
    Sample { distance: (-a.distance) as i64, material: a.material }
}

/// The results held in slots after the records `s`, whose own results are `vals`.
pub open spec fn slot_values(vals: Seq<Sample>, s: Seq<Record>) -> Seq<Sample>
    decreases s.len(),
{
    if s.len() == 0 {
        seq![]
    } else {
        let prev = slot_values(vals.drop_last(), s.drop_last());
        if s.last().referred {
            prev.push(vals.last())
        } else {
            prev
        }
    }
}

/// The result of record `r`, given its own primitive sample and the slots
/// filled before it.
pub open spec fn record_value(r: Record, own: Sample, filled: Seq<Sample>) -> Sample {
    match r.op {
        Op::Inv => inverted(filled[r.first_ref as int]),
        Op::Min => nearer(filled[r.first_ref as int], filled[r.second_ref as int]),
        Op::Max => farther(filled[r.first_ref as int], filled[r.second_ref as int]),
        _ => own,
    }
}

/// The result of every record of `s`, in order, where `leaf[i]` is the sample
/// of record `i` when it is a primitive.
pub open spec fn values(s: Seq<Record>, leaf: Seq<Sample>) -> Seq<Sample>
    decreases s.len(),
{
    if s.len() == 0 {
        seq![]
    } else {
        let prev = values(s.drop_last(), leaf);
        prev.push(record_value(s.last(), leaf[s.len() - 1], slot_values(prev, s.drop_last())))
    }
}

/// The result of the last record of `s`.
pub open spec fn last_value(s: Seq<Record>, leaf: Seq<Sample>) -> Sample {
    values(s, leaf).last()
}

/// The scene's sample: the nearest result among rendered records, the earliest
/// on a tie; `None` when nothing is rendered.
pub open spec fn scene_value(s: Seq<Record>, leaf: Seq<Sample>) -> Option<Sample>
    decreases s.len(),
{
    if s.len() == 0 {
        None
    } else {
        let prev = scene_value(s.drop_last(), leaf);
        if s.last().rendered {
            let v = values(s, leaf).last();
            match prev {
                None => Some(v),
                Some(p) => if v.distance < p.distance {
                    Some(v)
                } else {
                    Some(p)
                },
            }
        } else {
            prev
        }
    }
}

proof fn lemma_values_len(s: Seq<Record>, leaf: Seq<Sample>)
    ensures
        values(s, leaf).len() == s.len(),
    decreases s.len(),
{
    if s.len() > 0 {
        lemma_values_len(s.drop_last(), leaf);
    }
}

proof fn lemma_slot_values_len(vals: Seq<Sample>, s: Seq<Record>)
    ensures
        slot_values(vals, s).len() == referred_count(s),
    decreases s.len(),
{
    if s.len() > 0 {
        lemma_slot_values_len(vals.drop_last(), s.drop_last());
    }
}

proof fn lemma_values_prefix(s: Seq<Record>, leaf: Seq<Sample>, j: int)
    requires
        0 <= j <= s.len(),
    ensures
        values(s.take(j), leaf) == values(s, leaf).take(j),
    decreases s.len(),
{
    lemma_values_len(s, leaf);
    lemma_values_len(s.take(j), leaf);
    if j == s.len() {
        assert(s.take(j) =~= s);
        assert(values(s, leaf).take(j) =~= values(s, leaf));
    } else {
        lemma_values_prefix(s.drop_last(), leaf, j);
        assert(s.drop_last().take(j) =~= s.take(j));
        lemma_values_len(s.drop_last(), leaf);
        assert(values(s, leaf).take(j) =~= values(s.drop_last(), leaf).take(j));
    }
}

proof fn lemma_slot_values_prefix(vals: Seq<Sample>, s: Seq<Record>, j: int)
    requires
        0 <= j <= s.len(),
        vals.len() == s.len(),
    ensures
        slot_values(vals.take(j), s.take(j)) == slot_values(vals, s).take(
            referred_count(s.take(j)) as int,
        ),
    decreases s.len(),
{
    lemma_slot_values_len(vals, s);
    lemma_slot_values_len(vals.take(j), s.take(j));
    if j == s.len() {
        assert(s.take(j) =~= s);
        assert(vals.take(j) =~= vals);
        assert(slot_values(vals, s).take(referred_count(s) as int) =~= slot_values(vals, s));
    } else {
        lemma_slot_values_prefix(vals.drop_last(), s.drop_last(), j);
        assert(s.drop_last().take(j) =~= s.take(j));
        assert(vals.drop_last().take(j) =~= vals.take(j));
        lemma_slot_values_len(vals.drop_last(), s.drop_last());
        lemma_count_prefix(s.drop_last(), j);
        assert(slot_values(vals, s).take(referred_count(s.take(j)) as int) =~= slot_values(
            vals.drop_last(),
            s.drop_last(),
        ).take(referred_count(s.take(j)) as int));
    }
}

proof fn lemma_count_prefix(s: Seq<Record>, j: int)
    requires
        0 <= j <= s.len(),
    ensures
        referred_count(s.take(j)) <= referred_count(s),
    decreases s.len(),
{
    if j < s.len() {
        lemma_count_prefix(s.drop_last(), j);
        assert(s.drop_last().take(j) =~= s.take(j));
    } else {
        assert(s.take(j) =~= s);
    }
}

proof fn lemma_flatten_last(o: Object, mats: Seq<(String, Material)>, rendered: bool, referred: bool, base: nat)
    requires
        !repeats(o),
    ensures
        flatten(o, mats, rendered, referred, base).len() > 0,
        flatten(o, mats, rendered, referred, base).last().referred == referred,
{
}

/// The result of the slot filled by the last record of `s`, which is referred:
/// it is that record's own result, and later records do not change it.
proof fn lemma_slot_of_last(s: Seq<Record>, rest: Seq<Record>, leaf: Seq<Sample>)
    requires
        s.len() > 0,
        s.last().referred,
    ensures
        referred_count(s) >= 1,
        slot_values(values(s + rest, leaf), s + rest)[referred_count(s) - 1] == last_value(s, leaf),
        referred_count(s) <= referred_count(s + rest),
{
    let whole = s + rest;
    lemma_values_len(whole, leaf);
    lemma_values_prefix(whole, leaf, s.len() as int);
    assert(whole.take(s.len() as int) =~= s);
    lemma_slot_values_prefix(values(whole, leaf), whole, s.len() as int);
    lemma_values_len(s, leaf);
    assert(values(whole, leaf).take(s.len() as int) == values(s, leaf));
    lemma_slot_values_len(values(s, leaf), s);
    lemma_slot_values_len(values(whole, leaf), whole);
    lemma_count_prefix(whole, s.len() as int);
    let sv = slot_values(values(s, leaf), s);
    let big = slot_values(values(whole, leaf), whole);
    assert(sv == slot_values(values(s, leaf).drop_last(), s.drop_last()).push(values(s, leaf).last()));
    assert(sv.last() == last_value(s, leaf));
    assert(big.take(referred_count(s) as int) == sv);
    assert(big.take(referred_count(s) as int)[referred_count(s) - 1] == big[referred_count(s) - 1]);
}

/// The compiled union of two objects yields the nearer of its operands' results
/// (the first on a tie), so its distance is the smaller of their distances.
pub proof fn lemma_union_value(
    prefix: Seq<Record>,
    a: Object,
    b: Object,
    mats: Seq<(String, Material)>,
    rendered: bool,
    referred: bool,
    leaf: Seq<Sample>,
)
    requires
        !repeats(a),
        !repeats(b),
        referred_count(prefix) + slots(a) + slots(b) + 2 <= MAX_REFERENCES,
    ensures
        ({
            let base = referred_count(prefix);
            let pa = prefix + flatten(a, mats, false, true, base);
            let pb = pa + flatten(b, mats, false, true, base + slots(a) + 1);
            let whole = prefix + flatten(Object::Min(Box::new(a), Box::new(b)), mats, rendered, referred, base);
            &&& last_value(whole, leaf) == nearer(last_value(pa, leaf), last_value(pb, leaf))
            &&& last_value(whole, leaf).distance == if last_value(pa, leaf).distance <= last_value(pb, leaf).distance {
                last_value(pa, leaf).distance
            } else {
                last_value(pb, leaf).distance
            }
        }),
{
    lemma_pair_operands(prefix, a, b, mats, rendered, referred, leaf, Op::Min);
}

/// The compiled intersection of two objects yields the farther of its operands'
/// results (the first on a tie), so its distance is the larger of their distances.
pub proof fn lemma_intersection_value(
    prefix: Seq<Record>,
    a: Object,
    b: Object,
    mats: Seq<(String, Material)>,
    rendered: bool,
    referred: bool,
    leaf: Seq<Sample>,
)
    requires
        !repeats(a),
        !repeats(b),
        referred_count(prefix) + slots(a) + slots(b) + 2 <= MAX_REFERENCES,
    ensures
        ({
            let base = referred_count(prefix);
            let pa = prefix + flatten(a, mats, false, true, base);
            let pb = pa + flatten(b, mats, false, true, base + slots(a) + 1);
            let whole = prefix + flatten(Object::Max(Box::new(a), Box::new(b)), mats, rendered, referred, base);
            &&& last_value(whole, leaf) == farther(last_value(pa, leaf), last_value(pb, leaf))
            &&& last_value(whole, leaf).distance == if last_value(pa, leaf).distance >= last_value(pb, leaf).distance {
                last_value(pa, leaf).distance
            } else {
                last_value(pb, leaf).distance
            }
        }),
{
    lemma_pair_operands(prefix, a, b, mats, rendered, referred, leaf, Op::Max);
}

proof fn lemma_pair_operands(
    prefix: Seq<Record>,
    a: Object,
    b: Object,
    mats: Seq<(String, Material)>,
    rendered: bool,
    referred: bool,
    leaf: Seq<Sample>,
    op: Op,
)
    requires
        !repeats(a),
        !repeats(b),
        referred_count(prefix) + slots(a) + slots(b) + 2 <= MAX_REFERENCES,
        op == Op::Min || op == Op::Max,
    ensures
        ({
            let base = referred_count(prefix);
            let pa = prefix + flatten(a, mats, false, true, base);
            let pb = pa + flatten(b, mats, false, true, base + slots(a) + 1);
            let o = if op == Op::Min {
                Object::Min(Box::new(a), Box::new(b))
            } else {
                Object::Max(Box::new(a), Box::new(b))
            };
            let whole = prefix + flatten(o, mats, rendered, referred, base);
            let filled = slot_values(values(pb, leaf), pb);
            &&& whole.drop_last() == pb
            &&& whole.last().op == op
            &&& filled[whole.last().first_ref as int] == last_value(pa, leaf)
            &&& filled[whole.last().second_ref as int] == last_value(pb, leaf)
            &&& last_value(whole, leaf) == record_value(whole.last(), leaf[whole.len() - 1], filled)
        }),
{
    let base = referred_count(prefix);
    let fa = flatten(a, mats, false, true, base);
    let fb = flatten(b, mats, false, true, base + slots(a) + 1);
    let pa = prefix + fa;
    let pb = pa + fb;
    let o = if op == Op::Min {
        Object::Min(Box::new(a), Box::new(b))
    } else {
        Object::Max(Box::new(a), Box::new(b))
    };
    let whole = prefix + flatten(o, mats, rendered, referred, base);
    assert(whole.drop_last() =~= pb);
    lemma_flatten(a, mats, false, true, base);
    lemma_flatten(b, mats, false, true, base + slots(a) + 1);
    lemma_referred_count_concat(prefix, fa);
    lemma_referred_count_concat(pa, fb);
    lemma_flatten_last(a, mats, false, true, base);
    lemma_flatten_last(b, mats, false, true, base + slots(a) + 1);
    assert(pa.last() == fa.last());
    assert(pb.last() == fb.last());
    lemma_slot_of_last(pa, fb, leaf);
    assert(pa + fb == pb);
    lemma_slot_of_last(pb, seq![], leaf);
    assert(pb + Seq::<Record>::empty() =~= pb);
}

/// The compiled inversion of an object yields its operand's result with the
/// sign of the distance flipped.
pub proof fn lemma_inversion_value(
    prefix: Seq<Record>,
    a: Object,
    mats: Seq<(String, Material)>,
    rendered: bool,
    referred: bool,
    leaf: Seq<Sample>,
)
    requires
        !repeats(a),
        referred_count(prefix) + slots(a) + 1 <= MAX_REFERENCES,
    ensures
        ({
            let base = referred_count(prefix);
            let pa = prefix + flatten(a, mats, false, true, base);
            let whole = prefix + flatten(Object::Inv(Box::new(a)), mats, rendered, referred, base);
            &&& last_value(whole, leaf) == inverted(last_value(pa, leaf))
            &&& last_value(pa, leaf).distance > i64::MIN ==> last_value(whole, leaf).distance
                == -last_value(pa, leaf).distance
        }),
{
    let base = referred_count(prefix);
    let fa = flatten(a, mats, false, true, base);
    let pa = prefix + fa;
    let whole = prefix + flatten(Object::Inv(Box::new(a)), mats, rendered, referred, base);
    assert(whole.drop_last() =~= pa);
    lemma_flatten(a, mats, false, true, base);
    lemma_referred_count_concat(prefix, fa);
    lemma_flatten_last(a, mats, false, true, base);
    assert(pa.last() == fa.last());
    lemma_slot_of_last(pa, seq![], leaf);
    assert(pa + Seq::<Record>::empty() =~= pa);
}


/// A world without objects compiles to no records, so at every point the scene
/// has no surface: every ray misses and returns the sky.
pub proof fn lemma_empty_scene_misses(mats: Seq<(String, Material)>, leaf: Seq<Sample>)
    ensures
        flatten_all(Seq::<Object>::empty(), mats) == Seq::<Record>::empty(),
        scene_value(flatten_all(Seq::<Object>::empty(), mats), leaf) is None,
{
}

/// Whether every combinator of `records` refers only to slots filled by records
/// before it.
pub fn references_resolve(records: &Vec<Record>) -> (r: bool)
    ensures
        r == references_backward(records@),
{
    let mut filled: u64 = 0;
    let mut i: usize = 0;
    while i < records.len()
        invariant
            i <= records.len(),
            filled == referred_count(records@.take(i as int)),
            filled <= i,
            forall|j: int|
                0 <= j < i && (#[trigger] records@[j]).op.is_combinator() ==> {
                    &&& records@[j].first_ref < referred_count(records@.take(j))
                    &&& records@[j].second_ref < referred_count(records@.take(j))
                    &&& records@[j].first_ref < j
                    &&& records@[j].second_ref < j
                },
        decreases records.len() - i,
    {
        let rec = records[i];
        if rec.op.has_references() {
            if rec.first_ref as u64 >= filled || rec.second_ref as u64 >= filled {
                return false;
            }
        }
        proof {
            assert(records@.take(i + 1).drop_last() =~= records@.take(i as int));
        }
        if rec.referred {
            filled = filled + 1;
        }
        i = i + 1;
    }
    proof {
        assert(records@.take(i as int) =~= records@);
    }
    true
}

/// Evaluates a compiled scene at one point, given the sample of every primitive
/// record (`leaf[i]` for record `i`; ignored for combinators). Records are
/// resolved in one forward pass; the result is the nearest rendered record, or
/// `None` when nothing is rendered.
pub fn evaluate(records: &Vec<Record>, leaf: &Vec<Sample>) -> (r: Option<Sample>)
    requires
        leaf.len() == records.len(),
        references_backward(records@),
        forall|i: int| 0 <= i < leaf.len() ==> (#[trigger] leaf@[i]).distance > i64::MIN,
    ensures
        r == scene_value(records@, leaf@),
{
    let ghost s = records@;
    let mut filled: Vec<Sample> = Vec::new();
    let mut best: Option<Sample> = None;
    let mut i: usize = 0;
    while i < records.len()
        invariant
            s == records@,
            i <= s.len(),
            leaf.len() == s.len(),
            references_backward(s),
            forall|k: int| 0 <= k < leaf.len() ==> (#[trigger] leaf@[k]).distance > i64::MIN,
            filled@ == slot_values(values(s.take(i as int), leaf@), s.take(i as int)),
            forall|k: int| 0 <= k < filled@.len() ==> (#[trigger] filled@[k]).distance > i64::MIN,
            best == scene_value(s.take(i as int), leaf@),
        decreases s.len() - i,
    {
        let ghost pre = s.take(i as int);
        let ghost next = s.take(i + 1);
        proof {
            assert(next.drop_last() =~= pre);
            lemma_values_len(pre, leaf@);
            lemma_slot_values_len(values(pre, leaf@), pre);
            assert(s[i as int] == next.last());
        }
        let rec = records[i];
        let v = match rec.op {
            Op::Inv => {
                let x = filled[rec.first_ref as usize];
                Sample { distance: -x.distance, material: x.material }
            },
            Op::Min => {
                let x = filled[rec.first_ref as usize];
                let y = filled[rec.second_ref as usize];
                if x.distance <= y.distance {
                    x
                } else {
                    y
                }
            },
            Op::Max => {
                let x = filled[rec.first_ref as usize];
                let y = filled[rec.second_ref as usize];
                if x.distance >= y.distance {
                    x
                } else {
                    y
                }
            },
            _ => leaf[i],
        };
        proof {
            assert(v == record_value(next.last(), leaf@[next.len() - 1], slot_values(values(pre, leaf@), pre)));
            assert(values(next, leaf@) == values(pre, leaf@).push(v));
            assert(values(next, leaf@).drop_last() =~= values(pre, leaf@));
        }
        if rec.referred {
            filled.push(v);
        }
        if rec.rendered {
            best = match best {
                None => Some(v),
                Some(p) => if v.distance < p.distance {
                    Some(v)
                } else {
                    Some(p)
                },
            };
        }
        i = i + 1;
    }
    proof {
        assert(s.take(i as int) =~= s);
    }
    best
}

} // verus!
