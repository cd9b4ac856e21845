use vstd::prelude::*;
use vstd::utf8::encode_utf8;

use crate::scene::Material;

verus! {

broadcast use vstd::seq_lib::to_multiset_insert, vstd::seq_lib::group_to_multiset_ensures;

/// `a` comes before `b`, or equals it, in lexicographic byte order.
pub open spec fn bytes_le(a: Seq<u8>, b: Seq<u8>) -> bool
    decreases a.len(),
{
    if a.len() == 0 {
        true
    } else if b.len() == 0 {
        false
    } else if a[0] != b[0] {
        a[0] < b[0]
    } else {
        bytes_le(a.drop_first(), b.drop_first())
    }
}

/// The UTF-8 bytes of a material's name.
pub open spec fn name_bytes(p: (String, Material)) -> Seq<u8> {
    encode_utf8(p.0@)
}

/// The materials are listed in lexicographic order of their names.
pub open spec fn names_sorted(s: Seq<(String, Material)>) -> bool {
    forall|i: int, j: int| 0 <= i < j < s.len() ==> bytes_le(#[trigger] name_bytes(s[i]), #[trigger] name_bytes(s[j]))
}

proof fn lemma_le_total(a: Seq<u8>, b: Seq<u8>)
    ensures
        bytes_le(a, b) || bytes_le(b, a),
    decreases a.len(),
{
    if a.len() > 0 && b.len() > 0 && a[0] == b[0] {
        lemma_le_total(a.drop_first(), b.drop_first());
    }
}

proof fn lemma_le_trans(a: Seq<u8>, b: Seq<u8>, c: Seq<u8>)
    requires
        bytes_le(a, b),
        bytes_le(b, c),
    ensures
        bytes_le(a, c),
    decreases a.len(),
{
    if a.len() > 0 && b.len() > 0 && c.len() > 0 && a[0] == b[0] && b[0] == c[0] {
        lemma_le_trans(a.drop_first(), b.drop_first(), c.drop_first());
    }
}

proof fn lemma_le_refl(a: Seq<u8>)
    ensures
        bytes_le(a, a),
    decreases a.len(),
{
    if a.len() > 0 {
        lemma_le_refl(a.drop_first());
    }
}

/// Whether the name `a` comes before `b`, or equals it, in lexicographic byte order.
pub fn name_le(a: &String, b: &String) -> (r: bool)
    ensures
        r == bytes_le(encode_utf8(a@), encode_utf8(b@)),
{
    let x = a.as_str().as_bytes();
    let y = b.as_str().as_bytes();
    assert(x@ == encode_utf8(a@));
    assert(y@ == encode_utf8(b@));
    assert(x@.skip(0) =~= x@);
    assert(y@.skip(0) =~= y@);
    let mut i: usize = 0;
    while i < x.len() && i < y.len()
        invariant
            i <= x@.len(),
            i <= y@.len(),
            x@ == encode_utf8(a@),
            y@ == encode_utf8(b@),
            bytes_le(x@, y@) == bytes_le(x@.skip(i as int), y@.skip(i as int)),
        decreases x@.len() - i,
    {
        assert(x@.skip(i as int)[0] == x@[i as int]);
        assert(y@.skip(i as int)[0] == y@[i as int]);
        if x[i] != y[i] {
            assert(x@.skip(i as int).len() > 0 && y@.skip(i as int).len() > 0);
            assert(bytes_le(x@.skip(i as int), y@.skip(i as int)) == (x@[i as int] < y@[i as int]));
            return x[i] < y[i];
        }
        assert(x@.skip(i as int).drop_first() =~= x@.skip(i + 1));
        assert(y@.skip(i as int).drop_first() =~= y@.skip(i + 1));
        i = i + 1;
    }
    i == x.len()
}

/// The material names are pairwise different.
pub open spec fn names_unique(s: Seq<(String, Material)>) -> bool {
    forall|i: int, j: int| 0 <= i < j < s.len() ==> (#[trigger] s[i]).0@ != (#[trigger] s[j]).0@
}

/// Whether no two materials share a name.
pub fn names_distinct(mats: &Vec<(String, Material)>) -> (r: bool)
    ensures
        r == names_unique(mats@),
{
    let mut j: usize = 0;
    while j < mats.len()
        invariant
            j <= mats@.len(),
            forall|a: int, b: int| 0 <= a < b < j ==> (#[trigger] mats@[a]).0@ != (#[trigger] mats@[b]).0@,
        decreases mats@.len() - j,
    {
        let mut i: usize = 0;
        while i < j
            invariant
                i <= j < mats@.len(),
                forall|a: int, b: int| 0 <= a < b < j ==> (#[trigger] mats@[a]).0@ != (#[trigger] mats@[b]).0@,
                forall|a: int| 0 <= a < i ==> (#[trigger] mats@[a]).0@ != mats@[j as int].0@,
            decreases j - i,
        {
            if mats[i].0 == mats[j].0 {
                return false;
            }
            i = i + 1;
        }
        j = j + 1;
    }
    true
}

/// A copy of the materials ordered by name, lexicographically by their UTF-8
/// bytes, so that indices given by position in it do not depend on the order in
/// which the materials were listed.
pub fn sorted_by_name(mats: &Vec<(String, Material)>) -> (r: Vec<(String, Material)>)
    ensures
        names_sorted(r@),
        r@.to_multiset() == mats@.to_multiset(),
        r@.len() == mats@.len(),
{
    let mut rest: Vec<(String, Material)> = Vec::new();
    let mut k: usize = 0;
    while k < mats.len()
        invariant
            k <= mats@.len(),
            rest@ == mats@.take(k as int),
        decreases mats@.len() - k,
    {
        rest.push((mats[k].0.clone(), mats[k].1));
        assert(rest@ =~= mats@.take(k + 1));
        k = k + 1;
    }
    assert(rest@ =~= mats@);
    let ghost given = mats@;
    let mut sorted: Vec<(String, Material)> = Vec::new();
    while rest.len() > 0
        invariant
            names_sorted(sorted@),
            sorted@.to_multiset().add(rest@.to_multiset()) == given.to_multiset(),
        decreases rest@.len(),
    {
        let ghost before = rest@;
        let item = rest.pop().unwrap();
        assert(before == rest@.push(item));
        let mut pos: usize = 0;
        while pos < sorted.len() && name_le(&sorted[pos].0, &item.0)
            invariant
                pos <= sorted@.len(),
                forall|j: int| 0 <= j < pos ==> bytes_le(#[trigger] name_bytes(sorted@[j]), name_bytes(item)),
            decreases sorted@.len() - pos,
        {
            pos = pos + 1;
        }
        let ghost old_sorted = sorted@;
        proof {
            if pos < old_sorted.len() {
                lemma_le_total(name_bytes(old_sorted[pos as int]), name_bytes(item));
            }
        }
        sorted.insert(pos, item);
        proof {
            let s = sorted@;
            assert forall|i: int, j: int| 0 <= i < j < s.len() implies bytes_le(
                #[trigger] name_bytes(s[i]),
                #[trigger] name_bytes(s[j]),
            ) by {
                let p = pos as int;
                if j < p {
                    assert(s[i] == old_sorted[i] && s[j] == old_sorted[j]);
                } else if j == p {
                    assert(s[i] == old_sorted[i]);
                } else if i == p {
                    assert(s[j] == old_sorted[j - 1]);
                    if j - 1 > p {
                        assert(bytes_le(name_bytes(old_sorted[p]), name_bytes(old_sorted[j - 1])));
                    } else {
                        lemma_le_refl(name_bytes(old_sorted[p]));
                    }
                    lemma_le_trans(name_bytes(item), name_bytes(old_sorted[p]), name_bytes(old_sorted[j - 1]));
                } else if i < p {
                    assert(s[i] == old_sorted[i] && s[j] == old_sorted[j - 1]);
                } else {
                    assert(s[i] == old_sorted[i - 1] && s[j] == old_sorted[j - 1]);
                }
            }
            assert(sorted@.to_multiset() == old_sorted.to_multiset().insert(item));
            assert(before.to_multiset() == rest@.to_multiset().insert(item));
            assert(sorted@.to_multiset().add(rest@.to_multiset()) =~= old_sorted.to_multiset().add(
                before.to_multiset(),
            ));
        }
    }
    proof {
        assert(sorted@.to_multiset().add(Seq::<(String, Material)>::empty().to_multiset())
            =~= sorted@.to_multiset());
        assert(sorted@.to_multiset().len() == given.to_multiset().len());
    }
    sorted
}

} // verus!
