//! Ordering of text: the lexicographic order of strings, a stable insertion
//! sort keyed by text, and the removal of consecutive duplicates (what
//! `sort` followed by `dedup` does to a list of names).

use vstd::prelude::*;

use crate::text::views;

verus! {

/// Lexicographic order of character sequences. It is the order of `str`'s
/// comparison, since UTF-8 keeps the order of code points.
pub open spec fn text_lt(a: Seq<char>, b: Seq<char>) -> bool
    decreases a.len(),
{
    if a.len() == 0 {
        b.len() > 0
    } else if b.len() == 0 {
        false
    } else if a[0] != b[0] {
        a[0] < b[0]
    } else {
        text_lt(a.drop_first(), b.drop_first())
    }
}

/// No text is below itself.
pub proof fn lemma_text_lt_irreflexive(a: Seq<char>)
    ensures
        !text_lt(a, a),
    decreases a.len(),
{
    if a.len() > 0 {
        lemma_text_lt_irreflexive(a.drop_first());
    }
}

/// The order of text is transitive.
pub proof fn lemma_text_lt_transitive(a: Seq<char>, b: Seq<char>, c: Seq<char>)
    requires
        text_lt(a, b),
        text_lt(b, c),
    ensures
        text_lt(a, c),
    decreases a.len(),
{
    if a.len() > 0 && b.len() > 0 && c.len() > 0 && a[0] == b[0] && b[0] == c[0] {
        lemma_text_lt_transitive(a.drop_first(), b.drop_first(), c.drop_first());
    }
}

/// Two different texts are ordered one way or the other.
pub proof fn lemma_text_lt_total(a: Seq<char>, b: Seq<char>)
    requires
        a != b,
    ensures
        text_lt(a, b) || text_lt(b, a),
    decreases a.len(),
{
    if a.len() > 0 && b.len() > 0 && a[0] == b[0] {
        if a.drop_first() == b.drop_first() {
            assert(a =~= seq![a[0]] + a.drop_first());
            assert(b =~= seq![b[0]] + b.drop_first());
            assert(a =~= b);
        } else {
            lemma_text_lt_total(a.drop_first(), b.drop_first());
        }
    } else if a.len() == 0 && b.len() == 0 {
        assert(a =~= b);
    } else if a.len() > 0 && b.len() > 0 {
        assert(a[0] != b[0]);
    }
}

/// `s` is in non-decreasing order of `key`.
pub open spec fn sorted_by_key<T>(s: Seq<T>, key: spec_fn(T) -> Seq<char>) -> bool {
    forall|i: int, j: int| 0 <= i < j < s.len() ==> !text_lt(key(s[j]), key(s[i]))
}

/// Position at which a stable insertion puts `x`: after every element whose
/// key is not above `x`'s, before the first one whose key is.
pub open spec fn first_above<T>(s: Seq<T>, x: T, key: spec_fn(T) -> Seq<char>) -> int
    decreases s.len(),
{
    if s.len() == 0 {
        0
    } else if text_lt(key(x), key(s[0])) {
        0
    } else {
        1 + first_above(s.drop_first(), x, key)
    }
}

/// `s` with `x` inserted stably by `key`.
pub open spec fn insert_by_key<T>(s: Seq<T>, x: T, key: spec_fn(T) -> Seq<char>) -> Seq<T> {
    s.insert(first_above(s, x, key), x)
}

/// Stable sort by `key`: each element in turn inserted after the ones with
/// an equal key (what `sort_by` on a `Vec` gives).
pub open spec fn sort_by_key<T>(s: Seq<T>, key: spec_fn(T) -> Seq<char>) -> Seq<T>
    decreases s.len(),
{
    if s.len() == 0 {
        s
    } else {
        insert_by_key(sort_by_key(s.drop_last(), key), s.last(), key)
    }
}

/// The identity key, to sort texts themselves.
pub open spec fn itself(s: Seq<char>) -> Seq<char> {
    s
}

/// Texts sorted.
pub open spec fn sort_texts(s: Seq<Seq<char>>) -> Seq<Seq<char>> {
    sort_by_key(s, |t: Seq<char>| itself(t))
}

/// Consecutive repeats removed, keeping the first of each run (`Vec::dedup`).
pub open spec fn dedup_texts(s: Seq<Seq<char>>) -> Seq<Seq<char>>
    decreases s.len(),
{
    if s.len() <= 1 {
        s
    } else if s.last() == s[s.len() - 2] {
        dedup_texts(s.drop_last())
    } else {
        dedup_texts(s.drop_last()).push(s.last())
    }
}

pub proof fn lemma_first_above<T>(s: Seq<T>, x: T, key: spec_fn(T) -> Seq<char>)
    ensures
        0 <= first_above(s, x, key) <= s.len(),
        forall|k: int| 0 <= k < first_above(s, x, key) ==> !text_lt(key(x), #[trigger] key(s[k])),
        first_above(s, x, key) < s.len() ==> text_lt(key(x), key(s[first_above(s, x, key)])),
    decreases s.len(),
{
    if s.len() > 0 && !text_lt(key(x), key(s[0])) {
        lemma_first_above(s.drop_first(), x, key);
        assert forall|k: int| 0 <= k < first_above(s, x, key) implies !text_lt(
            key(x),
            #[trigger] key(s[k]),
        ) by {
            if k > 0 {
                assert(s[k] == s.drop_first()[k - 1]);
            }
        }
    }
}

proof fn lemma_insert_keeps_sorted<T>(s: Seq<T>, x: T, key: spec_fn(T) -> Seq<char>)
    requires
        sorted_by_key(s, key),
    ensures
        sorted_by_key(insert_by_key(s, x, key), key),
{
    lemma_first_above(s, x, key);
    let p = first_above(s, x, key);
    let r = insert_by_key(s, x, key);
    assert forall|i: int, j: int| 0 <= i < j < r.len() implies !text_lt(key(r[j]), key(r[i])) by {
        if j < p {
            assert(r[i] == s[i] && r[j] == s[j]);
        } else if j == p {
            assert(r[j] == x && r[i] == s[i]);
        } else if i > p {
            assert(r[i] == s[i - 1] && r[j] == s[j - 1]);
        } else if i == p {
            assert(r[i] == x && r[j] == s[j - 1]);
            if text_lt(key(s[j - 1]), key(x)) {
                lemma_text_lt_transitive(key(s[j - 1]), key(x), key(s[p]));
                if j - 1 == p {
                    lemma_text_lt_irreflexive(key(s[p]));
                }
            }
        } else {
            assert(r[i] == s[i] && r[j] == s[j - 1]);
        }
    }
}

/// What the stable sort returns is sorted by its key.
pub proof fn lemma_sort_by_key_sorted<T>(s: Seq<T>, key: spec_fn(T) -> Seq<char>)
    ensures
        sorted_by_key(sort_by_key(s, key), key),
    decreases s.len(),
{
    if s.len() > 0 {
        lemma_sort_by_key_sorted(s.drop_last(), key);
        lemma_insert_keeps_sorted(sort_by_key(s.drop_last(), key), s.last(), key);
    }
}

/// The stable sort keeps the length.
pub proof fn lemma_sort_by_key_len<T>(s: Seq<T>, key: spec_fn(T) -> Seq<char>)
    ensures
        sort_by_key(s, key).len() == s.len(),
    decreases s.len(),
{
    if s.len() > 0 {
        lemma_sort_by_key_len(s.drop_last(), key);
        lemma_first_above(sort_by_key(s.drop_last(), key), s.last(), key);
    }
}

/// The stable sort keeps every element, as many times as it occurred.
pub proof fn lemma_sort_by_key_permutes<T>(s: Seq<T>, key: spec_fn(T) -> Seq<char>)
    ensures
        sort_by_key(s, key).to_multiset() == s.to_multiset(),
    decreases s.len(),
{
    if s.len() > 0 {
        lemma_sort_by_key_permutes(s.drop_last(), key);
        let t = sort_by_key(s.drop_last(), key);
        lemma_first_above(t, s.last(), key);
        vstd::seq_lib::to_multiset_insert(t, first_above(t, s.last(), key), s.last());
        vstd::seq_lib::to_multiset_build(s.drop_last(), s.last());
        assert(s.drop_last().push(s.last()) =~= s);
    }
}

/// After `sort` and `dedup`, texts are strictly increasing: no name occurs
/// twice.
pub proof fn lemma_dedup_of_sorted_is_strict(s: Seq<Seq<char>>)
    requires
        sorted_by_key(s, |t: Seq<char>| itself(t)),
    ensures
        forall|i: int, j: int|
            0 <= i < j < dedup_texts(s).len() ==> text_lt(
                #[trigger] dedup_texts(s)[i],
                #[trigger] dedup_texts(s)[j],
            ),
        s.len() > 0 ==> dedup_texts(s).len() > 0,
        dedup_texts(s).len() > 0 ==> dedup_texts(s).last() == s.last(),
        forall|k: int| 0 <= k < dedup_texts(s).len() ==> s.contains(#[trigger] dedup_texts(s)[k]),
    decreases s.len(),
{
    if s.len() > 1 {
        let p = s.drop_last();
        assert(sorted_by_key(p, |t: Seq<char>| itself(t))) by {
            assert forall|i: int, j: int| 0 <= i < j < p.len() implies !text_lt(
                itself(p[j]),
                itself(p[i]),
            ) by {
                assert(p[i] == s[i] && p[j] == s[j]);
            }
        }
        lemma_dedup_of_sorted_is_strict(p);
        let d = dedup_texts(p);
        assert forall|k: int| 0 <= k < dedup_texts(s).len() implies s.contains(
            #[trigger] dedup_texts(s)[k],
        ) by {
            if k < d.len() {
                assert(dedup_texts(s)[k] == d[k]);
                assert(p.contains(d[k]));
                let w = choose|w: int| 0 <= w < p.len() && p[w] == d[k];
                assert(s[w] == d[k]);
            } else {
                assert(s[s.len() - 1] == s.last());
            }
        }
        if s.last() != s[s.len() - 2] {
            let r = dedup_texts(s);
            assert(r == d.push(s.last()));
            assert(d.len() > 0 ==> d.last() == s[s.len() - 2]) by {
                assert(p.last() == s[s.len() - 2]);
            }
            assert forall|i: int, j: int| 0 <= i < j < r.len() implies text_lt(
                #[trigger] r[i],
                #[trigger] r[j],
            ) by {
                if j < d.len() {
                    assert(r[i] == d[i] && r[j] == d[j]);
                } else {
                    assert(r[j] == s.last());
                    assert(r[i] == d[i]);
                    let a = s[s.len() - 2];
                    assert(!text_lt(itself(s[s.len() - 1]), itself(s[s.len() - 2])));
                    lemma_text_lt_total(a, s.last());
                    assert(text_lt(a, s.last()));
                    if i < d.len() - 1 {
                        assert(text_lt(d[i], d[d.len() - 1]));
                        lemma_text_lt_transitive(d[i], a, s.last());
                    }
                }
            }
        } else {
            assert(dedup_texts(s) == d);
            assert(d.len() > 0);
            assert(p.last() == s[s.len() - 2]);
        }
    } else if s.len() == 1 {
        assert(dedup_texts(s) == s);
    }
}

/// Removing consecutive repeats keeps every text there was.
pub proof fn lemma_dedup_keeps(s: Seq<Seq<char>>)
    ensures
        forall|x: Seq<char>| #[trigger] dedup_texts(s).contains(x) <==> s.contains(x),
    decreases s.len(),
{
    if s.len() > 1 {
        let p = s.drop_last();
        lemma_dedup_keeps(p);
        let d = dedup_texts(p);
        let r = dedup_texts(s);
        let same = s.last() == s[s.len() - 2];
        if same {
            assert(r == d);
        } else {
            assert(r == d.push(s.last()));
        }
        assert forall|x: Seq<char>| #[trigger] r.contains(x) <==> s.contains(x) by {
            if s.contains(x) {
                let w = choose|w: int| 0 <= w < s.len() && s[w] == x;
                if w < s.len() - 1 || same {
                    let v = if w < s.len() - 1 { w } else { s.len() - 2 };
                    assert(p[v] == x);
                    assert(p.contains(x));
                    assert(d.contains(x));
                    let k = choose|k: int| 0 <= k < d.len() && d[k] == x;
                    assert(r[k] == x);
                } else {
                    assert(r[r.len() - 1] == x);
                }
            }
            if r.contains(x) {
                let k = choose|k: int| 0 <= k < r.len() && r[k] == x;
                if k < d.len() {
                    assert(d[k] == x);
                    assert(d.contains(x));
                    assert(p.contains(x));
                    let v = choose|v: int| 0 <= v < p.len() && p[v] == x;
                    assert(s[v] == x);
                } else {
                    assert(s[s.len() - 1] == x);
                }
            }
        }
    }
}

/// Sorting and removing repeats keeps exactly the texts there were, each
/// once.
pub proof fn lemma_sort_dedup_set(s: Seq<Seq<char>>)
    ensures
        forall|x: Seq<char>| #[trigger] dedup_texts(sort_texts(s)).contains(x) <==> s.contains(x),
        forall|i: int, j: int|
            0 <= i < j < dedup_texts(sort_texts(s)).len() ==> dedup_texts(sort_texts(s))[i]
                != dedup_texts(sort_texts(s))[j],
{
    let t = sort_texts(s);
    lemma_sort_by_key_permutes(s, |x: Seq<char>| itself(x));
    lemma_dedup_keeps(t);
    assert forall|x: Seq<char>| #[trigger] dedup_texts(t).contains(x) <==> s.contains(x) by {
        vstd::seq_lib::to_multiset_contains(t, x);
        vstd::seq_lib::to_multiset_contains(s, x);
    }
    lemma_sort_by_key_sorted(s, |x: Seq<char>| itself(x));
    lemma_dedup_of_sorted_is_strict(t);
    let d = dedup_texts(t);
    assert forall|i: int, j: int| 0 <= i < j < d.len() implies d[i] != d[j] by {
        assert(text_lt(d[i], d[j]));
        if d[i] == d[j] {
            lemma_text_lt_irreflexive(d[i]);
        }
    }
}

/// Whether `a` comes before `b` in the order of text.
pub fn text_less(a: &[char], b: &[char]) -> (r: bool)
    ensures
        r == text_lt(a@, b@),
{
    let mut i: usize = 0;
    assert(a@.skip(0) =~= a@);
    assert(b@.skip(0) =~= b@);
    while i < a.len() && i < b.len() && a[i] == b[i]
        invariant
            i <= a.len(),
            i <= b.len(),
            text_lt(a@, b@) == text_lt(a@.skip(i as int), b@.skip(i as int)),
        decreases a.len() - i,
    {
        proof {
            assert(a@.skip(i as int).drop_first() =~= a@.skip(i + 1));
            assert(b@.skip(i as int).drop_first() =~= b@.skip(i + 1));
            assert(a@.skip(i as int)[0] == a@[i as int]);
            assert(b@.skip(i as int)[0] == b@[i as int]);
        }
        i = i + 1;
    }
    proof {
        if i < a.len() {
            assert(a@.skip(i as int)[0] == a@[i as int]);
        }
        if i < b.len() {
            assert(b@.skip(i as int)[0] == b@[i as int]);
        }
    }
    if i == a.len() {
        i < b.len()
    } else if i == b.len() {
        false
    } else {
        a[i] < b[i]
    }
}

proof fn lemma_first_above_step<T>(s: Seq<T>, x: T, key: spec_fn(T) -> Seq<char>, i: int)
    requires
        0 <= i < s.len(),
        !text_lt(key(x), key(s[i])),
    ensures
        first_above(s.skip(i), x, key) == 1 + first_above(s.skip(i + 1), x, key),
{
    assert(s.skip(i).drop_first() =~= s.skip(i + 1));
    assert(s.skip(i)[0] == s[i]);
}

/// Where a stable insertion by text puts `x` into `out`.
fn text_position(out: &Vec<String>, x: &[char]) -> (p: usize)
    ensures
        p == first_above(views(out@), x@, |t: Seq<char>| itself(t)),
{
    let ghost vs = views(out@);
    let ghost key = |t: Seq<char>| itself(t);
    let mut i: usize = 0;
    assert(vs.skip(0) =~= vs);
    loop
        invariant
            i <= out.len(),
            vs == views(out@),
            key == (|t: Seq<char>| itself(t)),
            first_above(vs, x@, key) == i + first_above(vs.skip(i as int), x@, key),
        decreases out.len() - i,
    {
        if i == out.len() {
            assert(vs.skip(i as int).len() == 0);
            return i;
        }
        let e = crate::text::chars_of(out[i].as_str());
        assert(vs[i as int] == e@);
        if text_less(x, e.as_slice()) {
            assert(vs.skip(i as int)[0] == vs[i as int]);
            return i;
        }
        proof {
            lemma_first_above_step(vs, x@, key, i as int);
        }
        i = i + 1;
    }
}

/// The names sorted (`Vec::sort` on strings).
pub fn sort_strings(v: &Vec<String>) -> (r: Vec<String>)
    ensures
        views(r@) == sort_texts(views(v@)),
{
    let ghost vs = views(v@);
    let ghost key = |t: Seq<char>| itself(t);
    let mut out: Vec<String> = Vec::new();
    let mut i: usize = 0;
    assert(vs.take(0) =~= Seq::<Seq<char>>::empty());
    while i < v.len()
        invariant
            i <= v.len(),
            vs == views(v@),
            key == (|t: Seq<char>| itself(t)),
            views(out@) == sort_by_key(vs.take(i as int), key),
        decreases v.len() - i,
    {
        let x = v[i].clone();
        let xs = crate::text::chars_of(x.as_str());
        let p = text_position(&out, xs.as_slice());
        proof {
            lemma_first_above(views(out@), xs@, key);
            assert(vs.take(i + 1).drop_last() =~= vs.take(i as int));
            assert(vs.take(i + 1).last() == vs[i as int]);
        }
        let ghost before = out@;
        out.insert(p, x);
        proof {
            assert(views(out@) =~= views(before).insert(p as int, xs@));
        }
        i = i + 1;
    }
    assert(vs.take(v.len() as int) =~= vs);
    out
}

/// Consecutive repeated names removed (`Vec::dedup` on strings).
pub fn dedup_strings(v: &Vec<String>) -> (r: Vec<String>)
    ensures
        views(r@) == dedup_texts(views(v@)),
{
    let ghost vs = views(v@);
    let mut out: Vec<String> = Vec::new();
    let mut i: usize = 0;
    while i < v.len()
        invariant
            i <= v.len(),
            vs == views(v@),
            views(out@) == dedup_texts(vs.take(i as int)),
        decreases v.len() - i,
    {
        let ghost before = out@;
        let ghost t = vs.take(i + 1);
        assert(t.drop_last() =~= vs.take(i as int));
        assert(t.last() == vs[i as int]);
        if i == 0 {
            out.push(v[i].clone());
            proof {
                assert(views(out@) =~= seq![vs[0]]);
                assert(t =~= seq![vs[0]]);
            }
        } else {
            assert(t[t.len() - 2] == vs[i - 1]);
            let same = crate::text::str_eq(v[i].as_str(), v[i - 1].as_str());
            if !same {
                out.push(v[i].clone());
                proof {
                    assert(views(out@) =~= views(before).push(vs[i as int]));
                }
            }
        }
        i = i + 1;
    }
    assert(vs.take(v.len() as int) =~= vs);
    out
}

/// The names sorted, with repeats removed.
pub fn sort_dedup_strings(v: &Vec<String>) -> (r: Vec<String>)
    ensures
        views(r@) == dedup_texts(sort_texts(views(v@))),
{
    let s = sort_strings(v);
    dedup_strings(&s)
}

} // verus!
