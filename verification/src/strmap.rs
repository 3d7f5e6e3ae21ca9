//! Ordered string-keyed maps kept as sorted vectors, with the order that
//! `BTreeMap<String, _>` uses (lexicographic by character).
use vstd::prelude::*;

verus! {

/// Strict lexicographic order on character sequences (the order of `String`).
pub open spec fn lex_lt(a: Seq<char>, b: Seq<char>) -> bool
    decreases a.len(),
{
    if a.len() == 0 {
        b.len() > 0
    } else if b.len() == 0 {
        false
    } else if a[0] != b[0] {
        a[0] < b[0]
    } else {
        lex_lt(a.drop_first(), b.drop_first())
    }
}

pub proof fn lemma_lex_irreflexive(a: Seq<char>)
    ensures
        !lex_lt(a, a),
    decreases a.len(),
{
    if a.len() > 0 {
        lemma_lex_irreflexive(a.drop_first());
    }
}

pub proof fn lemma_lex_asymmetric(a: Seq<char>, b: Seq<char>)
    ensures
        !(lex_lt(a, b) && lex_lt(b, a)),
    decreases a.len(),
{
    if a.len() > 0 && b.len() > 0 && a[0] == b[0] {
        lemma_lex_asymmetric(a.drop_first(), b.drop_first());
    }
}

pub proof fn lemma_lex_transitive(a: Seq<char>, b: Seq<char>, c: Seq<char>)
    requires
        lex_lt(a, b),
        lex_lt(b, c),
    ensures
        lex_lt(a, c),
    decreases a.len(),
{
    if a.len() > 0 && b.len() > 0 && c.len() > 0 && a[0] == b[0] && b[0] == c[0] {
        lemma_lex_transitive(a.drop_first(), b.drop_first(), c.drop_first());
    }
}

pub proof fn lemma_lex_total(a: Seq<char>, b: Seq<char>)
    ensures
        a == b || lex_lt(a, b) || lex_lt(b, a),
    decreases a.len(),
{
    if a.len() > 0 && b.len() > 0 {
        if a[0] == b[0] {
            lemma_lex_total(a.drop_first(), b.drop_first());
            if a.drop_first() == b.drop_first() {
                assert(a =~= seq![a[0]] + a.drop_first());
                assert(b =~= seq![b[0]] + b.drop_first());
            }
        }
    } else if a.len() == 0 && b.len() == 0 {
        assert(a =~= b);
    }
}

/// Whether `a` sorts strictly before `b`.
pub fn lex_less(a: &[char], b: &[char]) -> (r: bool)
    ensures
        r == lex_lt(a@, b@),
{
    let mut i: usize = 0;
    assert(a@.skip(0) =~= a@);
    assert(b@.skip(0) =~= b@);
    while i < a.len() && i < b.len()
        invariant
            i <= a.len(),
            i <= b.len(),
            lex_lt(a@, b@) == lex_lt(a@.skip(i as int), b@.skip(i as int)),
        decreases a.len() - i,
    {
        if a[i] != b[i] {
            assert(a@.skip(i as int)[0] == a@[i as int]);
            assert(b@.skip(i as int)[0] == b@[i as int]);
            return a[i] < b[i];
        }
        assert(a@.skip(i as int).drop_first() =~= a@.skip(i + 1));
        assert(b@.skip(i as int).drop_first() =~= b@.skip(i + 1));
        i += 1;
    }
    assert(a@.skip(0) =~= a@);
    i == a.len() && i < b.len()
}

/// Keys strictly increasing: sorted and without duplicates.
pub open spec fn keys_sorted<V>(m: Seq<(String, V)>) -> bool {
    forall|i: int, j: int| 0 <= i < j < m.len() ==> lex_lt(#[trigger] m[i].0@, #[trigger] m[j].0@)
}

/// The keys, as character sequences.
pub open spec fn key_views<V>(m: Seq<(String, V)>) -> Seq<Seq<char>> {
    m.map_values(|e: (String, V)| e.0@)
}

/// Whether some entry has key `k`.
pub open spec fn has_key<V>(m: Seq<(String, V)>, k: Seq<char>) -> bool {
    exists|i: int| 0 <= i < m.len() && #[trigger] m[i].0@ == k
}

/// Strictly increasing sequence of strings (a sorted set).
pub open spec fn strs_sorted(s: Seq<String>) -> bool {
    forall|i: int, j: int| 0 <= i < j < s.len() ==> lex_lt(#[trigger] s[i]@, #[trigger] s[j]@)
}

/// Position of the entry with key `k`.
pub fn find_key<V>(m: &Vec<(String, V)>, k: &[char]) -> (r: Option<usize>)
    ensures
        match r {
            Some(i) => i < m@.len() && m@[i as int].0@ == k@,
            None => !has_key(m@, k@),
        },
{
    let mut i: usize = 0;
    while i < m.len()
        invariant
            i <= m@.len(),
            forall|j: int| 0 <= j < i ==> m@[j].0@ != k@,
        decreases m@.len() - i,
    {
        let key = crate::text::to_chars(m[i].0.as_str());
        if crate::text::chars_eq(&key, k) {
            return Some(i);
        }
        i += 1;
    }
    None
}

/// The position at which a new key `k` keeps the keys sorted.
pub fn insert_position<V>(m: &Vec<(String, V)>, k: &[char]) -> (r: usize)
    requires
        keys_sorted(m@),
        !has_key(m@, k@),
    ensures
        r <= m@.len(),
        forall|j: int| 0 <= j < r ==> lex_lt(#[trigger] m@[j].0@, k@),
        forall|j: int| r <= j < m@.len() ==> lex_lt(k@, #[trigger] m@[j].0@),
{
    let mut i: usize = 0;
    while i < m.len()
        invariant
            i <= m@.len(),
            keys_sorted(m@),
            !has_key(m@, k@),
            forall|j: int| 0 <= j < i ==> lex_lt(#[trigger] m@[j].0@, k@),
        decreases m@.len() - i,
    {
        let key = crate::text::to_chars(m[i].0.as_str());
        if lex_less(k, &key) {
            assert forall|j: int| i <= j < m@.len() implies lex_lt(k@, #[trigger] m@[j].0@) by {
                if j > i {
                    lemma_lex_transitive(k@, m@[i as int].0@, m@[j].0@);
                }
            }
            return i;
        }
        proof {
            assert(m@[i as int].0@ != k@);
            lemma_lex_total(m@[i as int].0@, k@);
        }
        i += 1;
    }
    i
}

/// Inserts a new key, keeping the keys sorted.
pub fn insert_sorted<V>(m: &mut Vec<(String, V)>, k: String, v: V)
    requires
        keys_sorted(old(m)@),
        !has_key(old(m)@, k@),
    ensures
        keys_sorted(final(m)@),
        final(m)@.len() == old(m)@.len() + 1,
        exists|p: int| 0 <= p <= old(m)@.len() && final(m)@ == old(m)@.insert(p, (k, v)),
        forall|q: Seq<char>| has_key(final(m)@, q) <==> (has_key(old(m)@, q) || q == k@),
{
    let kc = crate::text::to_chars(k.as_str());
    let p = insert_position(m, &kc);
    let ghost old_m = m@;
    m.insert(p, (k, v));
    assert(m@ == old_m.insert(p as int, (k, v)));
    assert forall|i: int, j: int| 0 <= i < j < m@.len() implies lex_lt(
        #[trigger] m@[i].0@,
        #[trigger] m@[j].0@,
    ) by {
        if j < p {
        } else if i < p && j == p {
        } else if i < p {
            lemma_lex_transitive(m@[i].0@, k@, m@[j].0@);
        } else if i == p {
        } else {
        }
    }
    assert forall|q: Seq<char>| has_key(m@, q) <==> (has_key(old_m, q) || q == k@) by {
        if has_key(m@, q) {
            let i = choose|i: int| 0 <= i < m@.len() && #[trigger] m@[i].0@ == q;
            if i < p {
                assert(old_m[i].0@ == q);
            } else if i > p {
                assert(old_m[i - 1].0@ == q);
            }
        }
        if has_key(old_m, q) {
            let i = choose|i: int| 0 <= i < old_m.len() && #[trigger] old_m[i].0@ == q;
            if i < p {
                assert(m@[i].0@ == q);
            } else {
                assert(m@[i + 1].0@ == q);
            }
        }
        if q == k@ {
            assert(m@[p as int].0@ == q);
        }
    }
}


/// The position of key `k` (meaningful when the key is present).
pub open spec fn key_index<V>(m: Seq<(String, V)>, k: Seq<char>) -> int {
    choose|i: int| 0 <= i < m.len() && #[trigger] m[i].0@ == k
}

/// The map that a sorted entry sequence denotes, with values seen through `f`.
pub open spec fn map_view<V, W>(m: Seq<(String, V)>, f: spec_fn(V) -> W) -> Map<Seq<char>, W> {
    Map::new(|k: Seq<char>| has_key(m, k), |k: Seq<char>| f(m[key_index(m, k)].1))
}

pub proof fn lemma_key_index_unique<V>(m: Seq<(String, V)>, i: int, k: Seq<char>)
    requires
        keys_sorted(m),
        0 <= i < m.len(),
        m[i].0@ == k,
    ensures
        key_index(m, k) == i,
        has_key(m, k),
{
    assert(has_key(m, k));
    let j = key_index(m, k);
    assert(0 <= j < m.len() && m[j].0@ == k);
    if j < i {
        lemma_lex_irreflexive(k);
    } else if i < j {
        lemma_lex_irreflexive(k);
    }
}

pub proof fn lemma_map_view_insert<V, W>(
    old_m: Seq<(String, V)>,
    new_m: Seq<(String, V)>,
    p: int,
    k: String,
    v: V,
    f: spec_fn(V) -> W,
)
    requires
        keys_sorted(old_m),
        keys_sorted(new_m),
        0 <= p <= old_m.len(),
        new_m == old_m.insert(p, (k, v)),
        !has_key(old_m, k@),
    ensures
        map_view(new_m, f) == map_view(old_m, f).insert(k@, f(v)),
{
    let a = map_view(new_m, f);
    let b = map_view(old_m, f).insert(k@, f(v));
    assert forall|q: Seq<char>| a.dom().contains(q) <==> b.dom().contains(q) by {
        if has_key(new_m, q) {
            let i = choose|i: int| 0 <= i < new_m.len() && #[trigger] new_m[i].0@ == q;
            if i < p {
                assert(old_m[i].0@ == q);
            } else if i > p {
                assert(old_m[i - 1].0@ == q);
            }
        }
        if has_key(old_m, q) {
            let i = choose|i: int| 0 <= i < old_m.len() && #[trigger] old_m[i].0@ == q;
            if i < p {
                assert(new_m[i].0@ == q);
            } else {
                assert(new_m[i + 1].0@ == q);
            }
        }
        if q == k@ {
            assert(new_m[p].0@ == q);
        }
    }
    assert forall|q: Seq<char>| #[trigger] a.dom().contains(q) implies a[q] == b[q] by {
        let i = key_index(new_m, q);
        lemma_key_index_unique(new_m, i, q);
        if i == p {
        } else if i < p {
            lemma_key_index_unique(old_m, i, q);
        } else {
            lemma_key_index_unique(old_m, i - 1, q);
        }
    }
    assert(a =~= b);
}

pub proof fn lemma_map_view_update<V, W>(
    old_m: Seq<(String, V)>,
    i: int,
    v: V,
    f: spec_fn(V) -> W,
)
    requires
        keys_sorted(old_m),
        0 <= i < old_m.len(),
    ensures
        keys_sorted(old_m.update(i, (old_m[i].0, v))),
        map_view(old_m.update(i, (old_m[i].0, v)), f) == map_view(old_m, f).insert(
            old_m[i].0@,
            f(v),
        ),
{
    let new_m = old_m.update(i, (old_m[i].0, v));
    assert forall|a: int, b: int| 0 <= a < b < new_m.len() implies lex_lt(
        #[trigger] new_m[a].0@,
        #[trigger] new_m[b].0@,
    ) by {
        assert(new_m[a].0 == old_m[a].0);
        assert(new_m[b].0 == old_m[b].0);
    }
    let x = map_view(new_m, f);
    let y = map_view(old_m, f).insert(old_m[i].0@, f(v));
    assert forall|q: Seq<char>| x.dom().contains(q) <==> y.dom().contains(q) by {
        if has_key(new_m, q) {
            let j = choose|j: int| 0 <= j < new_m.len() && #[trigger] new_m[j].0@ == q;
            assert(old_m[j].0@ == q);
        }
        if has_key(old_m, q) {
            let j = choose|j: int| 0 <= j < old_m.len() && #[trigger] old_m[j].0@ == q;
            assert(new_m[j].0@ == q);
        }
        if q == old_m[i].0@ {
            assert(new_m[i].0@ == q);
        }
    }
    assert forall|q: Seq<char>| #[trigger] x.dom().contains(q) implies x[q] == y[q] by {
        let j = key_index(new_m, q);
        lemma_key_index_unique(new_m, j, q);
        assert(new_m[j].0 == old_m[j].0);
        lemma_key_index_unique(old_m, j, q);
        if j != i {
            if q == old_m[i].0@ {
                lemma_key_index_unique(old_m, i, q);
            }
            assert(q != old_m[i].0@);
            assert(new_m[j].1 == old_m[j].1);
        }
    }
    assert(x =~= y);
}

/// Replaces the value at position `i`, returning the previous one.
pub fn replace_value<V>(m: &mut Vec<(String, V)>, i: usize, v: V) -> (r: V)
    requires
        i < old(m)@.len(),
    ensures
        r == old(m)@[i as int].1,
        final(m)@ == old(m)@.update(i as int, (old(m)@[i as int].0, v)),
{
    let (k, old_v) = m.remove(i);
    m.insert(i, (k, v));
    let ghost o = old(m)@;
    assert(m@ =~= o.update(i as int, (o[i as int].0, v)));
    old_v
}


pub proof fn lemma_map_view_remove<V, W>(old_m: Seq<(String, V)>, i: int, f: spec_fn(V) -> W)
    requires
        keys_sorted(old_m),
        0 <= i < old_m.len(),
    ensures
        keys_sorted(old_m.remove(i)),
        map_view(old_m.remove(i), f) == map_view(old_m, f).remove(old_m[i].0@),
{
    let new_m = old_m.remove(i);
    let k = old_m[i].0@;
    assert forall|a: int, b: int| 0 <= a < b < new_m.len() implies lex_lt(
        #[trigger] new_m[a].0@,
        #[trigger] new_m[b].0@,
    ) by {
        let oa = if a < i { a } else { a + 1 };
        let ob = if b < i { b } else { b + 1 };
        assert(new_m[a] == old_m[oa]);
        assert(new_m[b] == old_m[ob]);
    }
    let x = map_view(new_m, f);
    let y = map_view(old_m, f).remove(k);
    assert forall|q: Seq<char>| x.dom().contains(q) <==> y.dom().contains(q) by {
        if has_key(new_m, q) {
            let j = choose|j: int| 0 <= j < new_m.len() && #[trigger] new_m[j].0@ == q;
            let oj = if j < i { j } else { j + 1 };
            assert(new_m[j] == old_m[oj]);
            assert(old_m[oj].0@ == q);
            if q == k {
                lemma_key_index_unique(old_m, oj, q);
                lemma_key_index_unique(old_m, i, q);
            }
        }
        if has_key(old_m, q) && q != k {
            let j = choose|j: int| 0 <= j < old_m.len() && #[trigger] old_m[j].0@ == q;
            assert(j != i);
            if j < i {
                assert(new_m[j] == old_m[j]);
                assert(new_m[j].0@ == q);
            } else {
                assert(new_m[j - 1] == old_m[j]);
                assert(new_m[j - 1].0@ == q);
            }
        }
    }
    assert forall|q: Seq<char>| #[trigger] x.dom().contains(q) implies x[q] == y[q] by {
        let j = key_index(new_m, q);
        lemma_key_index_unique(new_m, j, q);
        let oj = if j < i { j } else { j + 1 };
        assert(new_m[j] == old_m[oj]);
        lemma_key_index_unique(old_m, oj, q);
    }
    assert(x =~= y);
}

} // verus!
