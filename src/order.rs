use vstd::prelude::*;

use crate::models::{Acronym, AcronymView};

verus! {

/// Lexicographic order on character sequences, by code point: `a` comes no
/// later than `b`.
pub open spec fn key_le(a: Seq<char>, b: Seq<char>) -> bool
    decreases a.len(),
{
    if a.len() == 0 {
        true
    } else if b.len() == 0 {
        false
    } else if a[0] != b[0] {
        a[0] < b[0]
    } else {
        key_le(a.drop_first(), b.drop_first())
    }
}

/// Any two keys are ordered one way or the other.
pub proof fn lemma_key_le_total(a: Seq<char>, b: Seq<char>)
    ensures
        key_le(a, b) || key_le(b, a),
    decreases a.len(),
{
    if a.len() > 0 && b.len() > 0 {
        if a[0] == b[0] {
            lemma_key_le_total(a.drop_first(), b.drop_first());
        } else {
            assert(a[0] < b[0] || b[0] < a[0]);
        }
    }
}

/// The order on keys is transitive.
pub proof fn lemma_key_le_transitive(a: Seq<char>, b: Seq<char>, c: Seq<char>)
    requires
        key_le(a, b),
        key_le(b, c),
    ensures
        key_le(a, c),
    decreases a.len(),
{
    if a.len() > 0 && b.len() > 0 && c.len() > 0 && a[0] == b[0] && b[0] == c[0] {
        lemma_key_le_transitive(a.drop_first(), b.drop_first(), c.drop_first());
    }
}

/// Whether `a` comes no later than `b` in the order of keys.
pub fn key_before(a: &str, b: &str) -> (r: bool)
    ensures
        r == key_le(a@, b@),
{
    let la = a.unicode_len();
    let lb = b.unicode_len();
    let mut i: usize = 0;
    assert(a@.skip(0) =~= a@);
    assert(b@.skip(0) =~= b@);
    while i < la && i < lb
        invariant
            la == a@.len(),
            lb == b@.len(),
            i <= la,
            i <= lb,
            key_le(a@, b@) == key_le(a@.skip(i as int), b@.skip(i as int)),
        decreases la - i,
    {
        let ca = a.get_char(i);
        let cb = b.get_char(i);
        if ca != cb {
            return ca < cb;
        }
        assert(a@.skip(i as int).drop_first() =~= a@.skip(i + 1));
        assert(b@.skip(i as int).drop_first() =~= b@.skip(i + 1));
        i = i + 1;
    }
    i == la
}

/// The views of a sequence of acronyms.
pub open spec fn acronym_views(s: Seq<Acronym>) -> Seq<AcronymView> {
    s.map_values(|a: Acronym| a@)
}

/// Keys never decrease along the sequence.
pub open spec fn sorted_by_key_spec(s: Seq<AcronymView>) -> bool {
    forall|i: int, j: int| 0 <= i < j < s.len() ==> key_le(#[trigger] s[i].key, #[trigger] s[j].key)
}

/// No identifier occurs twice in the sequence.
pub open spec fn distinct_ids(s: Seq<AcronymView>) -> bool {
    forall|i: int, j: int| 0 <= i < j < s.len() ==> #[trigger] s[i].id != #[trigger] s[j].id
}

/// Inserts `a` where the keys stay in order; returns its position.
pub(crate) fn insert_sorted(r: &mut Vec<Acronym>, a: Acronym) -> (p: usize)
    requires
        sorted_by_key_spec(acronym_views(old(r)@)),
    ensures
        p <= old(r)@.len(),
        acronym_views(final(r)@) == acronym_views(old(r)@).insert(p as int, a@),
        sorted_by_key_spec(acronym_views(final(r)@)),
        distinct_ids(acronym_views(old(r)@)) && (forall|k: int|
            0 <= k < old(r)@.len() ==> (#[trigger] old(r)@[k]).id != a.id) ==> distinct_ids(
            acronym_views(final(r)@),
        ),
{
    let ghost s = acronym_views(r@);
    let mut p: usize = 0;
    let mut scanning = true;
    while scanning && p < r.len()
        invariant
            p <= r@.len(),
            s == acronym_views(r@),
            forall|k: int| 0 <= k < p ==> key_le(#[trigger] s[k].key, a.key@),
            !scanning ==> p < s.len() && !key_le(s[p as int].key, a.key@),
        decreases r@.len() - p + (if scanning { 1int } else { 0int }),
    {
        assert(s[p as int] == r@[p as int]@);
        if key_before(r[p].key.as_str(), a.key.as_str()) {
            p = p + 1;
        } else {
            scanning = false;
        }
    }
    let ghost av = a@;
    proof {
        if p < s.len() {
            lemma_key_le_total(s[p as int].key, av.key);
        }
    }
    r.insert(p, a);
    let ghost t = s.insert(p as int, av);
    assert(acronym_views(r@) =~= t);
    assert forall|i: int, j: int| 0 <= i < j < t.len() implies key_le(
        #[trigger] t[i].key,
        #[trigger] t[j].key,
    ) by {
        if j < p {
        } else if j == p {
        } else if i < p {
            assert(t[i] == s[i] && t[j] == s[j - 1]);
        } else if i == p {
            if j - 1 > p {
                lemma_key_le_transitive(av.key, s[p as int].key, s[j - 1].key);
            }
        } else {
        }
    }
    p
}

/// The same acronyms, in order of their keys.
pub fn sort_by_key(v: &Vec<Acronym>) -> (r: Vec<Acronym>)
    ensures
        sorted_by_key_spec(acronym_views(r@)),
        acronym_views(r@).to_multiset() == acronym_views(v@).to_multiset(),
{
    let mut r: Vec<Acronym> = Vec::new();
    let mut i: usize = 0;
    assert(acronym_views(r@) =~= acronym_views(v@.take(0)));
    while i < v.len()
        invariant
            i <= v@.len(),
            sorted_by_key_spec(acronym_views(r@)),
            acronym_views(r@).to_multiset() == acronym_views(v@.take(i as int)).to_multiset(),
        decreases v@.len() - i,
    {
        let ghost before = acronym_views(r@);
        let a = v[i].copied();
        let p = insert_sorted(&mut r, a);
        proof {
            let t = acronym_views(r@);
            lemma_insert_multiset(before, p as int, v@[i as int]@);
            assert(v@.take(i + 1) == v@.take(i as int).push(v@[i as int]));
            assert(acronym_views(v@.take(i + 1)) =~= acronym_views(v@.take(i as int)).push(
                v@[i as int]@,
            ));
            acronym_views(v@.take(i as int)).to_multiset_ensures();
        }
        i = i + 1;
    }
    assert(v@.take(i as int) =~= v@);
    r
}

/// Inserting one element anywhere adds it to the multiset of elements.
proof fn lemma_insert_multiset<A>(s: Seq<A>, p: int, x: A)
    requires
        0 <= p <= s.len(),
    ensures
        s.insert(p, x).to_multiset() == s.to_multiset().insert(x),
{
    let t = s.insert(p, x);
    assert(t.remove(p) =~= s);
    t.to_multiset_ensures();
    assert(t[p] == x);
    assert(t.contains(x));
    assert(t.to_multiset().count(x) > 0);
    assert(t.to_multiset() =~= t.to_multiset().remove(x).insert(x));
}

} // verus!
