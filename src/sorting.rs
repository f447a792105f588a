//! Stable sorting by a text key.
use vstd::prelude::*;

verus! {

/// `a` is at most `b` in lexicographic order of characters, which is the
/// order of `String`'s comparison.
pub open spec fn chars_le(a: Seq<char>, b: Seq<char>) -> bool
    decreases a.len(),
{
    if a.len() == 0 {
        true
    } else if b.len() == 0 {
        false
    } else if a[0] != b[0] {
        a[0] < b[0]
    } else {
        chars_le(a.drop_first(), b.drop_first())
    }
}

/// `x` placed after every entry of the sorted `s` whose key is at most its own.
pub open spec fn insert_keyed<T>(s: Seq<(Seq<char>, T)>, x: (Seq<char>, T)) -> Seq<(Seq<char>, T)>
    decreases s.len(),
{
    if s.len() == 0 {
        seq![x]
    } else if chars_le(s.last().0, x.0) {
        s.push(x)
    } else {
        insert_keyed(s.drop_last(), x).push(s.last())
    }
}

/// `s` sorted by key; entries with equal keys keep their order.
pub open spec fn sort_keyed<T>(s: Seq<(Seq<char>, T)>) -> Seq<(Seq<char>, T)>
    decreases s.len(),
{
    if s.len() == 0 {
        s
    } else {
        insert_keyed(sort_keyed(s.drop_last()), s.last())
    }
}

pub open spec fn keyed_views<T>(v: Seq<(Vec<char>, T)>) -> Seq<(Seq<char>, T)> {
    v.map_values(|p: (Vec<char>, T)| (p.0@, p.1))
}

pub open spec fn values_of<T>(v: Seq<(Seq<char>, T)>) -> Seq<T> {
    v.map_values(|p: (Seq<char>, T)| p.1)
}

/// Whether `a` is at most `b`.
pub fn text_le(a: &Vec<char>, b: &Vec<char>) -> (r: bool)
    ensures
        r == chars_le(a@, b@),
{
    let mut i: usize = 0;
    assert(a@.subrange(0, a@.len() as int) == a@);
    assert(b@.subrange(0, b@.len() as int) == b@);
    while i < a.len()
        invariant
            i <= a.len(),
            i <= b.len(),
            a@.subrange(0, i as int) == b@.subrange(0, i as int),
            chars_le(a@, b@) == chars_le(a@.subrange(i as int, a@.len() as int), b@.subrange(i as int, b@.len() as int)),
        decreases a.len() - i,
    {
        let ghost sa = a@.subrange(i as int, a@.len() as int);
        let ghost sb = b@.subrange(i as int, b@.len() as int);
        if i == b.len() {
            return false;
        }
        if a[i] != b[i] {
            return a[i] < b[i];
        }
        assert(sa.drop_first() == a@.subrange(i + 1, a@.len() as int));
        assert(sb.drop_first() == b@.subrange(i + 1, b@.len() as int));
        assert(a@.subrange(0, i + 1) == a@.subrange(0, i as int).push(a@[i as int]));
        assert(b@.subrange(0, i + 1) == b@.subrange(0, i as int).push(b@[i as int]));
        i += 1;
    }
    true
}

fn insert_keyed_vec<T>(v: &mut Vec<(Vec<char>, T)>, x: (Vec<char>, T))
    ensures
        keyed_views(final(v)@) == insert_keyed(keyed_views(old(v)@), (x.0@, x.1)),
    decreases old(v)@.len(),
{
    let ghost s = keyed_views(v@);
    if v.len() == 0 {
        v.push(x);
        assert(keyed_views(v@) =~= seq![(x.0@, x.1)]);
        return;
    }
    let y = v.pop().unwrap();
    assert(keyed_views(v@) =~= s.drop_last());
    if text_le(&y.0, &x.0) {
        v.push(y);
        v.push(x);
        assert(keyed_views(v@) =~= s.push((x.0@, x.1)));
    } else {
        let ghost mid = keyed_views(v@);
        insert_keyed_vec(v, x);
        let ghost ins = keyed_views(v@);
        v.push(y);
        assert(keyed_views(v@) =~= ins.push((y.0@, y.1)));
    }
}

/// The values of `items`, sorted stably by their keys.
pub fn sort_by_keys<T>(items: Vec<(Vec<char>, T)>) -> (r: Vec<T>)
    ensures
        r@ == values_of(sort_keyed(keyed_views(items@))),
{
    let ghost all = keyed_views(items@);
    let mut sorted: Vec<(Vec<char>, T)> = Vec::new();
    let mut rest = items;
    let ghost n = all.len();
    while rest.len() > 0
        invariant
            rest@.len() <= n,
            n == all.len(),
            keyed_views(rest@) == all.subrange(n - rest@.len(), n as int),
            keyed_views(sorted@) == sort_keyed(all.subrange(0, n - rest@.len())),
        decreases rest.len(),
    {
        let ghost k = n - rest@.len();
        let ghost rb = keyed_views(rest@);
        let ghost r0 = rest@;
        let p = rest.remove(0);
        assert(rest@ =~= r0.subrange(1, r0.len() as int));
        assert(keyed_views(rest@) =~= rb.subrange(1, rb.len() as int));
        assert(rb[0] == (p.0@, p.1));
        assert(all[k] == (p.0@, p.1));
        assert(keyed_views(rest@) =~= all.subrange(k + 1, n as int));
        insert_keyed_vec(&mut sorted, p);
        assert(all.subrange(0, k + 1).drop_last() =~= all.subrange(0, k));
    }
    assert(all.subrange(0, n as int) =~= all);
    let ghost fin = keyed_views(sorted@);
    let mut out: Vec<T> = Vec::new();
    let ghost m = fin.len();
    while sorted.len() > 0
        invariant
            sorted@.len() <= m,
            m == fin.len(),
            keyed_views(sorted@) == fin.subrange(m - sorted@.len(), m as int),
            out@ == values_of(fin.subrange(0, m - sorted@.len())),
        decreases sorted.len(),
    {
        let ghost k = m - sorted@.len();
        let ghost sb = keyed_views(sorted@);
        let ghost s0 = sorted@;
        let p = sorted.remove(0);
        assert(sorted@ =~= s0.subrange(1, s0.len() as int));
        assert(keyed_views(sorted@) =~= sb.subrange(1, sb.len() as int));
        assert(sb[0] == (p.0@, p.1));
        assert(fin[k] == (p.0@, p.1));
        out.push(p.1);
        assert(keyed_views(sorted@) =~= fin.subrange(k + 1, m as int));
        assert(out@ =~= values_of(fin.subrange(0, k + 1)));
    }
    assert(fin.subrange(0, m as int) =~= fin);
    out
}

pub open spec fn map_keyed<A, B>(s: Seq<(Seq<char>, A)>, g: spec_fn(A) -> B) -> Seq<(Seq<char>, B)> {
    s.map_values(|p: (Seq<char>, A)| (p.0, g(p.1)))
}

proof fn lemma_insert_map<A, B>(s: Seq<(Seq<char>, A)>, x: (Seq<char>, A), g: spec_fn(A) -> B)
    ensures
        insert_keyed(map_keyed(s, g), (x.0, g(x.1))) == map_keyed(insert_keyed(s, x), g),
    decreases s.len(),
{
    if s.len() > 0 {
        assert(map_keyed(s, g).drop_last() =~= map_keyed(s.drop_last(), g));
        assert(map_keyed(s, g).last() == (s.last().0, g(s.last().1)));
        if chars_le(s.last().0, x.0) {
            assert(map_keyed(s, g).push((x.0, g(x.1))) =~= map_keyed(s.push(x), g));
        } else {
            lemma_insert_map(s.drop_last(), x, g);
            assert(map_keyed(insert_keyed(s.drop_last(), x), g).push((s.last().0, g(s.last().1)))
                =~= map_keyed(insert_keyed(s.drop_last(), x).push(s.last()), g));
        }
    } else {
        assert(map_keyed(seq![x], g) =~= seq![(x.0, g(x.1))]);
    }
}

/// Sorting by key commutes with changing the values.
pub proof fn lemma_sort_map<A, B>(s: Seq<(Seq<char>, A)>, g: spec_fn(A) -> B)
    ensures
        sort_keyed(map_keyed(s, g)) == map_keyed(sort_keyed(s), g),
    decreases s.len(),
{
    if s.len() > 0 {
        lemma_sort_map(s.drop_last(), g);
        assert(map_keyed(s, g).drop_last() =~= map_keyed(s.drop_last(), g));
        lemma_insert_map(sort_keyed(s.drop_last()), s.last(), g);
    } else {
        assert(map_keyed(s, g) =~= s.map_values(|p: (Seq<char>, A)| (p.0, g(p.1))));
        assert(map_keyed(s, g).len() == 0);
        assert(map_keyed(sort_keyed(s), g) =~= map_keyed(s, g));
    }
}

/// Each entry's key is at most the next one's.
pub open spec fn keys_ordered<T>(s: Seq<(Seq<char>, T)>) -> bool {
    forall|i: int| 0 <= i < s.len() - 1 ==> chars_le(#[trigger] s[i].0, s[i + 1].0)
}

/// Of two texts, one is at most the other.
pub proof fn lemma_chars_le_total(a: Seq<char>, b: Seq<char>)
    ensures
        chars_le(a, b) || chars_le(b, a),
    decreases a.len(),
{
    if a.len() > 0 && b.len() > 0 && a[0] == b[0] {
        lemma_chars_le_total(a.drop_first(), b.drop_first());
    }
}

proof fn lemma_insert_ordered<T>(s: Seq<(Seq<char>, T)>, x: (Seq<char>, T))
    requires
        keys_ordered(s),
    ensures
        keys_ordered(insert_keyed(s, x)),
        insert_keyed(s, x).len() == s.len() + 1,
        insert_keyed(s, x).last() == x || (s.len() > 0 && insert_keyed(s, x).last() == s.last()),
        insert_keyed(s, x).to_multiset() == s.to_multiset().insert(x),
    decreases s.len(),
{
    broadcast use vstd::seq_lib::group_to_multiset_ensures;

    if s.len() == 0 {
        assert(seq![x] =~= Seq::<(Seq<char>, T)>::empty().push(x));
    } else if chars_le(s.last().0, x.0) {
        let r = s.push(x);
        assert forall|i: int| 0 <= i < r.len() - 1 implies chars_le(#[trigger] r[i].0, r[i + 1].0) by {
            if i < s.len() - 1 {
                assert(r[i] == s[i] && r[i + 1] == s[i + 1]);
            }
        }
    } else {
        let t = s.drop_last();
        assert(keys_ordered(t)) by {
            assert forall|i: int| 0 <= i < t.len() - 1 implies chars_le(#[trigger] t[i].0, t[i + 1].0) by {
                assert(t[i] == s[i] && t[i + 1] == s[i + 1]);
            }
        }
        lemma_insert_ordered(t, x);
        let q = insert_keyed(t, x);
        let r = q.push(s.last());
        lemma_chars_le_total(s.last().0, x.0);
        if q.last() != x {
            assert(chars_le(s[s.len() - 2].0, s[s.len() - 1].0));
        }
        assert(chars_le(q.last().0, s.last().0));
        assert forall|i: int| 0 <= i < r.len() - 1 implies chars_le(#[trigger] r[i].0, r[i + 1].0) by {
            if i < q.len() - 1 {
                assert(r[i] == q[i] && r[i + 1] == q[i + 1]);
            } else {
                assert(r[i] == q.last());
            }
        }
        assert(t.push(s.last()) =~= s);
    }
}

/// Sorting by key gives entries ordered by key, with the same entries.
pub proof fn lemma_sort_ordered<T>(s: Seq<(Seq<char>, T)>)
    ensures
        keys_ordered(sort_keyed(s)),
        sort_keyed(s).to_multiset() == s.to_multiset(),
    decreases s.len(),
{
    broadcast use vstd::seq_lib::group_to_multiset_ensures;

    if s.len() > 0 {
        lemma_sort_ordered(s.drop_last());
        lemma_insert_ordered(sort_keyed(s.drop_last()), s.last());
        assert(s.drop_last().push(s.last()) =~= s);
    }
}

/// The values of `v`, sorted stably by the key that `f` computes from each.
pub open spec fn sorted_values<T>(v: Seq<T>, f: spec_fn(T) -> Seq<char>) -> Seq<T> {
    values_of(sort_keyed(v.map_values(|x: T| (f(x), x))))
}

/// Values sorted by a key computed from each: ordered by that key, and as
/// many as there were.
pub proof fn lemma_values_ordered<T>(v: Seq<T>, f: spec_fn(T) -> Seq<char>)
    ensures
        sorted_values(v, f).len() == v.len(),
        forall|i: int| 0 <= i < v.len() - 1 ==> chars_le(
            f(#[trigger] sorted_values(v, f)[i]), f(sorted_values(v, f)[i + 1])),
{
    broadcast use vstd::seq_lib::group_to_multiset_ensures;

    let k = v.map_values(|x: T| (f(x), x));
    let srt = sort_keyed(k);
    let w = values_of(srt);
    lemma_sort_ordered(k);
    assert(srt.to_multiset().len() == srt.len());
    assert(k.to_multiset().len() == k.len());
    assert(srt.len() == k.len());
    assert forall|i: int| 0 <= i < srt.len() implies (#[trigger] srt[i]).0 == f(srt[i].1) by {
        assert(srt.to_multiset().count(srt[i]) > 0);
        assert(k.contains(srt[i]));
        let j = choose|j: int| 0 <= j < k.len() && k[j] == srt[i];
        assert(k[j] == (f(v[j]), v[j]));
    }
    assert forall|i: int| 0 <= i < v.len() - 1 implies chars_le(f(#[trigger] w[i]), f(w[i + 1])) by {
        assert(w[i] == srt[i].1 && w[i + 1] == srt[i + 1].1);
        assert(srt[i].0 == f(srt[i].1));
        assert(srt[i + 1].0 == f(srt[i + 1].1));
    }
}

} // verus!
