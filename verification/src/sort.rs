//! A stable insertion sort by a rank and a string key, the order in which
//! directory entries and search results are listed.
use vstd::prelude::*;

verus! {

/// Lexicographic order of character sequences by code point (the order of
/// std's `String` comparison, since UTF-8 keeps code point order).
pub open spec fn lex_le(a: Seq<char>, b: Seq<char>) -> bool
    decreases a.len(),
{
    if a.len() == 0 {
        true
    } else if b.len() == 0 {
        false
    } else if a[0] < b[0] {
        true
    } else if a[0] > b[0] {
        false
    } else {
        lex_le(a.skip(1), b.skip(1))
    }
}

/// Items are ordered by rank, then by key.
pub open spec fn key_le(a: (u8, Seq<char>), b: (u8, Seq<char>)) -> bool {
    a.0 < b.0 || (a.0 == b.0 && lex_le(a.1, b.1))
}

pub open spec fn item_key<T>(e: (u8, Seq<char>, T)) -> (u8, Seq<char>) {
    (e.0, e.1)
}

/// An item with its key as a character sequence.
pub open spec fn keyed_view<T>(e: (u8, Vec<char>, T)) -> (u8, Seq<char>, T) {
    (e.0, e.1@, e.2)
}

pub open spec fn keyed_views<T>(s: Seq<(u8, Vec<char>, T)>) -> Seq<(u8, Seq<char>, T)> {
    s.map_values(|e: (u8, Vec<char>, T)| keyed_view(e))
}

/// Inserts `x` into sorted `s` after every element that is not greater.
pub open spec fn insert_sorted<T>(s: Seq<(u8, Seq<char>, T)>, x: (u8, Seq<char>, T)) -> Seq<(u8, Seq<char>, T)>
    decreases s.len(),
{
    if s.len() == 0 {
        seq![x]
    } else if key_le(item_key(s.last()), item_key(x)) {
        s.push(x)
    } else {
        insert_sorted(s.drop_last(), x).push(s.last())
    }
}

/// The stable sort of `s` by rank and key (insertion sort).
pub open spec fn sorted_by_key<T>(s: Seq<(u8, Seq<char>, T)>) -> Seq<(u8, Seq<char>, T)>
    decreases s.len(),
{
    if s.len() == 0 {
        Seq::<(u8, Seq<char>, T)>::empty()
    } else {
        insert_sorted(sorted_by_key(s.drop_last()), s.last())
    }
}

pub open spec fn map_payload<T, U>(s: Seq<(u8, Seq<char>, T)>, f: spec_fn(T) -> U) -> Seq<(u8, Seq<char>, U)> {
    s.map_values(|t: (u8, Seq<char>, T)| (t.0, t.1, f(t.2)))
}

proof fn lemma_insert_map_payload<T, U>(s: Seq<(u8, Seq<char>, T)>, x: (u8, Seq<char>, T), f: spec_fn(T) -> U)
    ensures
        map_payload(insert_sorted(s, x), f) == insert_sorted(map_payload(s, f), (x.0, x.1, f(x.2))),
    decreases s.len(),
{
    if s.len() > 0 {
        lemma_insert_map_payload(s.drop_last(), x, f);
        assert(map_payload(s, f).drop_last() =~= map_payload(s.drop_last(), f));
        assert(map_payload(s, f).last() == (s.last().0, s.last().1, f(s.last().2)));
        if key_le(item_key(s.last()), item_key(x)) {
            assert(map_payload(s.push(x), f) =~= map_payload(s, f).push((x.0, x.1, f(x.2))));
        } else {
            let t = insert_sorted(s.drop_last(), x);
            assert(map_payload(t.push(s.last()), f) =~= map_payload(t, f).push((s.last().0, s.last().1, f(s.last().2))));
        }
    } else {
        assert(map_payload(seq![x], f) =~= seq![(x.0, x.1, f(x.2))]);
    }
}

/// Sorting does not look at the payloads: mapping them before or after
/// sorting gives the same.
pub proof fn lemma_sorted_map_payload<T, U>(s: Seq<(u8, Seq<char>, T)>, f: spec_fn(T) -> U)
    ensures
        map_payload(sorted_by_key(s), f) == sorted_by_key(map_payload(s, f)),
    decreases s.len(),
{
    if s.len() > 0 {
        lemma_sorted_map_payload(s.drop_last(), f);
        lemma_insert_map_payload(sorted_by_key(s.drop_last()), s.last(), f);
        assert(map_payload(s, f).drop_last() =~= map_payload(s.drop_last(), f));
        assert(map_payload(s, f).last() == (s.last().0, s.last().1, f(s.last().2)));
    } else {
        assert(map_payload(s, f) =~= Seq::<(u8, Seq<char>, U)>::empty());
        assert(map_payload(Seq::<(u8, Seq<char>, T)>::empty(), f) =~= Seq::<(u8, Seq<char>, U)>::empty());
    }
}

/// The ranks never go down along the sequence.
pub open spec fn rank_sorted<T>(s: Seq<(u8, Seq<char>, T)>) -> bool {
    forall|i: int, j: int| 0 <= i < j < s.len() ==> #[trigger] s[i].0 <= #[trigger] s[j].0
}

proof fn lemma_insert_members<T>(s: Seq<(u8, Seq<char>, T)>, x: (u8, Seq<char>, T))
    ensures
        insert_sorted(s, x).len() == s.len() + 1,
        forall|k: int| 0 <= k < insert_sorted(s, x).len() ==> #[trigger] insert_sorted(s, x)[k] == x || s.contains(
            insert_sorted(s, x)[k],
        ),
    decreases s.len(),
{
    if s.len() > 0 && !key_le(item_key(s.last()), item_key(x)) {
        let init = s.drop_last();
        lemma_insert_members(init, x);
        let t = insert_sorted(init, x);
        assert forall|k: int| 0 <= k < insert_sorted(s, x).len() implies #[trigger] insert_sorted(s, x)[k] == x
            || s.contains(insert_sorted(s, x)[k]) by {
            if k < t.len() {
                assert(insert_sorted(s, x)[k] == t[k]);
                if t[k] != x {
                    let w = choose|w: int| 0 <= w < init.len() && init[w] == t[k];
                    assert(s[w] == init[w]);
                }
            } else {
                assert(insert_sorted(s, x)[k] == s.last());
                assert(s[s.len() - 1] == s.last());
            }
        }
    } else if s.len() > 0 {
        assert forall|k: int| 0 <= k < insert_sorted(s, x).len() implies #[trigger] insert_sorted(s, x)[k] == x
            || s.contains(insert_sorted(s, x)[k]) by {
            if k < s.len() {
                assert(insert_sorted(s, x)[k] == s[k]);
            }
        }
    }
}

proof fn lemma_insert_rank_sorted<T>(s: Seq<(u8, Seq<char>, T)>, x: (u8, Seq<char>, T))
    requires
        rank_sorted(s),
    ensures
        rank_sorted(insert_sorted(s, x)),
    decreases s.len(),
{
    if s.len() > 0 {
        let init = s.drop_last();
        let last = s.last();
        assert(s[s.len() - 1] == last);
        assert(rank_sorted(init)) by {
            assert forall|i: int, j: int| 0 <= i < j < init.len() implies #[trigger] init[i].0 <= #[trigger] init[j].0 by {
                assert(init[i] == s[i] && init[j] == s[j]);
            }
        }
        if key_le(item_key(last), item_key(x)) {
            let r = s.push(x);
            assert forall|i: int, j: int| 0 <= i < j < r.len() implies #[trigger] r[i].0 <= #[trigger] r[j].0 by {
                if j == s.len() {
                    assert(r[i] == s[i]);
                    if i < s.len() - 1 {
                        assert(s[i].0 <= s[s.len() - 1].0);
                    }
                } else {
                    assert(r[i] == s[i] && r[j] == s[j]);
                }
            }
        } else {
            lemma_insert_rank_sorted(init, x);
            lemma_insert_members(init, x);
            let t = insert_sorted(init, x);
            let r = t.push(last);
            assert(x.0 <= last.0);
            assert forall|i: int, j: int| 0 <= i < j < r.len() implies #[trigger] r[i].0 <= #[trigger] r[j].0 by {
                if j == t.len() {
                    assert(r[i] == t[i]);
                    assert(t[i] == x || init.contains(t[i]));
                    if t[i] != x {
                        let w = choose|w: int| 0 <= w < init.len() && init[w] == t[i];
                        assert(s[w] == init[w]);
                        assert(s[w].0 <= s[s.len() - 1].0);
                    }
                } else {
                    assert(r[i] == t[i] && r[j] == t[j]);
                }
            }
        }
    }
}

/// The stable sort orders by rank, and holds only items of its input.
pub proof fn lemma_sorted_rank<T>(s: Seq<(u8, Seq<char>, T)>)
    ensures
        rank_sorted(sorted_by_key(s)),
        sorted_by_key(s).len() == s.len(),
        forall|k: int| 0 <= k < sorted_by_key(s).len() ==> s.contains(#[trigger] sorted_by_key(s)[k]),
    decreases s.len(),
{
    if s.len() > 0 {
        let init = s.drop_last();
        lemma_sorted_rank(init);
        let t = sorted_by_key(init);
        lemma_insert_rank_sorted(t, s.last());
        lemma_insert_members(t, s.last());
        assert forall|k: int| 0 <= k < sorted_by_key(s).len() implies s.contains(#[trigger] sorted_by_key(s)[k]) by {
            let e = sorted_by_key(s)[k];
            if e == s.last() {
                assert(s[s.len() - 1] == e);
            } else {
                assert(t.contains(e));
                let w = choose|w: int| 0 <= w < t.len() && t[w] == e;
                assert(init.contains(t[w]));
                let v = choose|v: int| 0 <= v < init.len() && init[v] == e;
                assert(s[v] == init[v]);
            }
        }
    }
}

fn lex_le_exec(a: &Vec<char>, b: &Vec<char>) -> (r: bool)
    ensures
        r == lex_le(a@, b@),
{
    let mut i: usize = 0;
    assert(a@.skip(0) == a@ && b@.skip(0) == b@);
    while i < a.len() && i < b.len() && a[i] == b[i]
        invariant
            i <= a.len(),
            i <= b.len(),
            lex_le(a@, b@) == lex_le(a@.skip(i as int), b@.skip(i as int)),
        decreases a.len() - i,
    {
        proof {
            assert(a@.skip(i as int).skip(1) =~= a@.skip(i + 1));
            assert(b@.skip(i as int).skip(1) =~= b@.skip(i + 1));
            assert(a@.skip(i as int)[0] == a@[i as int]);
            assert(b@.skip(i as int)[0] == b@[i as int]);
        }
        i = i + 1;
    }
    proof {
        if i < a.len() {
            assert(a@.skip(i as int)[0] == a@[i as int]);
        }
        if i < b.len() {
            assert(b@.skip(i as int)[0] == b@[i as int]);
        }
    }
    if i == a.len() {
        true
    } else if i == b.len() {
        false
    } else {
        a[i] < b[i]
    }
}

fn key_le_exec<T>(a: &(u8, Vec<char>, T), b: &(u8, Vec<char>, T)) -> (r: bool)
    ensures
        r == key_le(item_key(keyed_view(*a)), item_key(keyed_view(*b))),
{
    a.0 < b.0 || (a.0 == b.0 && lex_le_exec(&a.1, &b.1))
}

proof fn lemma_insert_sorted_at<T>(s: Seq<(u8, Seq<char>, T)>, x: (u8, Seq<char>, T), p: int)
    requires
        0 <= p <= s.len(),
        p == 0 || key_le(item_key(s[p - 1]), item_key(x)),
    ensures
        insert_sorted(s.take(p), x) == s.take(p).push(x),
{
    if p > 0 {
        assert(s.take(p).last() == s[p - 1]);
    }
}

/// Sorts the items stably by rank, then key.
pub fn stable_sort<T>(v: Vec<(u8, Vec<char>, T)>) -> (r: Vec<(u8, Vec<char>, T)>)
    ensures
        keyed_views(r@) == sorted_by_key(keyed_views(v@)),
        r@.len() == v@.len(),
{
    let mut v = v;
    let ghost orig = keyed_views(v@);
    let mut out: Vec<(u8, Vec<char>, T)> = Vec::new();
    let mut taken: usize = 0;
    let n = v.len();
    while v.len() > 0
        invariant
            keyed_views(v@) == orig.skip(taken as int),
            taken + v.len() == n == orig.len(),
            keyed_views(out@) == sorted_by_key(orig.take(taken as int)),
            out@.len() == taken,
        decreases v.len(),
    {
        let ghost vv = v@;
        let x = v.remove(0);
        let ghost xv = keyed_view(x);
        proof {
            assert(keyed_views(vv)[0] == xv);
            assert(orig.skip(taken as int)[0] == xv);
            assert(orig.take(taken + 1).drop_last() =~= orig.take(taken as int));
            assert(orig.take(taken + 1).last() == xv);
            assert(keyed_views(v@) =~= keyed_views(vv).skip(1));
            assert(keyed_views(v@) =~= orig.skip(taken + 1));
        }
        let ghost before = keyed_views(out@);
        let ghost before_len = out@.len();
        let mut p = out.len();
        proof {
            assert(before.take(p as int) == before);
            assert(before.skip(p as int) =~= Seq::<(u8, Seq<char>, T)>::empty());
        }
        while p > 0 && !key_le_exec(&out[p - 1], &x)
            invariant
                p <= out.len() == before_len == before.len(),
                keyed_views(out@) == before,
                xv == keyed_view(x),
                insert_sorted(before, xv) == insert_sorted(before.take(p as int), xv) + before.skip(p as int),
            decreases p,
        {
            proof {
                let t = before.take(p as int);
                assert(before[p - 1] == keyed_view(out@[p - 1]));
                assert(t.last() == before[p - 1]);
                assert(t.drop_last() =~= before.take(p - 1));
                assert(insert_sorted(t, xv) == insert_sorted(before.take(p - 1), xv).push(before[p - 1]));
                assert(before.skip(p - 1) =~= seq![before[p - 1]] + before.skip(p as int));
                assert(insert_sorted(before.take(p - 1), xv).push(before[p - 1]) + before.skip(p as int)
                    =~= insert_sorted(before.take(p - 1), xv) + before.skip(p - 1));
            }
            p = p - 1;
        }
        proof {
            if p > 0 {
                assert(before[p - 1] == keyed_view(out@[p - 1]));
            }
            lemma_insert_sorted_at(before, xv, p as int);
        }
        let ghost out_before = out@;
        out.insert(p, x);
        proof {
            assert(keyed_views(out@) =~= before.take(p as int).push(xv) + before.skip(p as int));
        }
        taken = taken + 1;
    }
    proof {
        assert(orig.take(n as int) =~= orig);
    }
    out
}

/// The third parts of the items, in order.
pub fn thirds<T>(v: Vec<(u8, Vec<char>, T)>) -> (r: Vec<T>)
    ensures
        r@ == v@.map_values(|e: (u8, Vec<char>, T)| e.2),
{
    let mut v = v;
    let ghost orig = v@;
    let mut out: Vec<T> = Vec::new();
    let mut k: usize = 0;
    assert(orig.len() == v.len());
    while v.len() > 0
        invariant
            v@ == orig.skip(k as int),
            k + v.len() == orig.len(),
            orig.len() <= usize::MAX,
            out@ == orig.take(k as int).map_values(|e: (u8, Vec<char>, T)| e.2),
        decreases v.len(),
    {
        let x = v.remove(0);
        proof {
            assert(orig.skip(k as int)[0] == x);
            assert(v@ =~= orig.skip(k + 1));
        }
        out.push(x.2);
        proof {
            assert(out@ =~= orig.take(k + 1).map_values(|e: (u8, Vec<char>, T)| e.2));
        }
        k = k + 1;
    }
    proof {
        assert(orig.take(k as int) =~= orig);
    }
    out
}

} // verus!
