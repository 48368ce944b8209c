//! Update notice for the program itself: compares the tag of the latest
//! published release with the version that is running.

use vstd::prelude::*;

use crate::text::{chars_of, lead_char, slice_range, split_seq, split_state, string_of};

verus! {

/// Value of a string of decimal digits.
pub open spec fn digits_value(s: Seq<char>) -> nat
    decreases s.len(),
{
    if s.len() == 0 {
        0
    } else {
        digits_value(s.drop_last()) * 10 + digit_of(s.last())
    }
}

/// Value of a decimal digit character.
pub open spec fn digit_of(c: char) -> nat {
    ((c as u32) - 0x30) as nat
}

/// Decimal digit character.
pub open spec fn is_digit(c: char) -> bool {
    0x30 <= (c as u32) <= 0x39
}

/// Every character of `s` is a decimal digit.
pub open spec fn all_digits(s: Seq<char>) -> bool {
    forall|i: int| 0 <= i < s.len() ==> is_digit(#[trigger] s[i])
}

/// `u32::from_str`: an optional `+`, then at least one decimal digit, with a
/// value that fits in a `u32`.
pub open spec fn parse_u32_spec(s: Seq<char>) -> Option<u32> {
    let d = if s.len() > 0 && s[0] == '+' {
        s.drop_first()
    } else {
        s
    };
    if d.len() == 0 {
        None
    } else if !all_digits(d) {
        None
    } else if digits_value(d) > u32::MAX {
        None
    } else {
        Some(digits_value(d) as u32)
    }
}

/// A single decimal digit reads as its value.
pub proof fn lemma_parse_one_digit(c: char)
    requires
        '0' <= c <= '9',
    ensures
        parse_u32_spec(seq![c]) == Some(((c as u32) - ('0' as u32)) as u32),
{
    let d = seq![c];
    assert(d[0] == c && d.last() == c);
    assert(d.drop_last() =~= Seq::<char>::empty());
    assert(digits_value(Seq::<char>::empty()) == 0);
    assert(digits_value(d) == digit_of(c));
    assert(all_digits(d));
    assert(c != '+');
}

/// Appending a digit to a number without sign multiplies its value by ten
/// and adds the digit, as long as the result fits in a `u32`: `"10"` reads
/// as ten, `"255"` as two hundred fifty-five.
pub proof fn lemma_parse_append_digit(d: Seq<char>, c: char, v: u32)
    requires
        d.len() > 0,
        d[0] != '+',
        parse_u32_spec(d) == Some(v),
        '0' <= c <= '9',
        10 * v + ((c as u32) - ('0' as u32)) <= u32::MAX,
    ensures
        parse_u32_spec(d.push(c)) == Some((10 * v + ((c as u32) - ('0' as u32))) as u32),
{
    let e = d.push(c);
    assert(e[0] == d[0]);
    assert(e.drop_last() =~= d);
    assert forall|i: int| 0 <= i < e.len() implies is_digit(#[trigger] e[i]) by {
        if i < d.len() {
            assert(e[i] == d[i]);
        }
    }
}

/// Numbers and versions: a version component that is all digits reads as its
/// full decimal value whenever that fits in a `u32`.
pub proof fn lemma_parse_digits(d: Seq<char>)
    requires
        d.len() > 0,
        all_digits(d),
        digits_value(d) <= u32::MAX,
    ensures
        parse_u32_spec(d) == Some(digits_value(d) as u32),
{
    assert(is_digit(d[0]));
}

/// The numbers of a list of pieces, skipping the pieces that are not numbers.
pub open spec fn parse_parts(parts: Seq<Seq<char>>) -> Seq<u32>
    decreases parts.len(),
{
    if parts.len() == 0 {
        Seq::empty()
    } else {
        let p = parse_parts(parts.drop_last());
        match parse_u32_spec(parts.last()) {
            Some(v) => p.push(v),
            None => p,
        }
    }
}

/// A version string without its leading `v` characters.
pub open spec fn strip_v(s: Seq<char>) -> Seq<char> {
    s.skip(lead_char(s, 'v') as int)
}

/// The numeric components of a version string: leading `v`s removed, split at
/// `.`, pieces that are not numbers skipped.
pub open spec fn version_parts(s: Seq<char>) -> Seq<u32> {
    parse_parts(split_seq(strip_v(s), '.'))
}

/// Component `i` of a version, zero when missing.
pub open spec fn part(v: Seq<u32>, i: int) -> u32 {
    if 0 <= i < v.len() {
        v[i]
    } else {
        0
    }
}

/// The larger of two lengths.
pub open spec fn max_len(a: Seq<u32>, b: Seq<u32>) -> int {
    if a.len() >= b.len() {
        a.len() as int
    } else {
        b.len() as int
    }
}

/// Comparison from component `i` on: `true` when `l` is greater at the first
/// component where they differ.
pub open spec fn newer_from(l: Seq<u32>, c: Seq<u32>, i: int) -> bool
    decreases max_len(l, c) - i,
{
    if i < 0 || i >= max_len(l, c) {
        false
    } else if part(l, i) > part(c, i) {
        true
    } else if part(l, i) < part(c, i) {
        false
    } else {
        newer_from(l, c, i + 1)
    }
}

/// `latest` is strictly greater than `current`, component by component, with
/// missing components counted as zero.
pub open spec fn newer(latest: Seq<char>, current: Seq<char>) -> bool {
    newer_from(version_parts(latest), version_parts(current), 0)
}

proof fn lemma_digits_value_step(s: Seq<char>, i: int)
    requires
        0 <= i < s.len(),
    ensures
        digits_value(s.take(i + 1)) == digits_value(s.take(i)) * 10 + digit_of(s[i]),
{
    assert(s.take(i + 1).drop_last() =~= s.take(i));
}

proof fn lemma_digits_value_grows(s: Seq<char>, i: int)
    requires
        0 <= i <= s.len(),
    ensures
        digits_value(s.take(i)) <= digits_value(s),
    decreases s.len() - i,
{
    if i < s.len() {
        lemma_digits_value_step(s, i);
        lemma_digits_value_grows(s, i + 1);
    } else {
        assert(s.take(i) =~= s);
    }
}

/// `u32::from_str` on characters.
pub fn parse_u32(s: &[char]) -> (r: Option<u32>)
    ensures
        r == parse_u32_spec(s@),
{
    let start: usize = if s.len() > 0 && s[0] == '+' {
        1
    } else {
        0
    };
    let ghost d = if s@.len() > 0 && s@[0] == '+' {
        s@.drop_first()
    } else {
        s@
    };
    assert(d =~= s@.skip(start as int));
    if start == s.len() {
        return None;
    }
    let mut acc: u64 = 0;
    let mut i: usize = start;
    assert(d.take(0) =~= Seq::<char>::empty());
    while i < s.len()
        invariant
            start <= i <= s.len(),
            start < s.len(),
            d == s@.skip(start as int),
            d == (if s@.len() > 0 && s@[0] == '+' {
                s@.drop_first()
            } else {
                s@
            }),
            acc == digits_value(d.take(i - start)),
            acc <= u32::MAX,
            forall|k: int| 0 <= k < i - start ==> is_digit(#[trigger] d[k]),
        decreases s.len() - i,
    {
        let c = s[i];
        let u = c as u32;
        assert(d[i - start] == s@[i as int]);
        if u < 0x30 || u > 0x39 {
            assert(!is_digit(d[i - start]));
            assert(!all_digits(d));
            return None;
        }
        proof {
            lemma_digits_value_step(d, i - start);
        }
        let next: u64 = acc * 10 + (u - 0x30) as u64;
        if next > 0xFFFF_FFFF {
            proof {
                lemma_digits_value_grows(d, i - start + 1);
            }
            return None;
        }
        acc = next;
        i = i + 1;
    }
    assert(d.take(i - start) =~= d);
    Some(acc as u32)
}

proof fn lemma_parse_parts_step(parts: Seq<Seq<char>>, i: int)
    requires
        0 <= i < parts.len(),
    ensures
        parse_parts(parts.take(i + 1)) == (match parse_u32_spec(parts[i]) {
            Some(v) => parse_parts(parts.take(i)).push(v),
            None => parse_parts(parts.take(i)),
        }),
{
    assert(parts.take(i + 1).drop_last() =~= parts.take(i));
}

proof fn lemma_split_state_step(s: Seq<char>, c: char, i: int)
    requires
        0 <= i < s.len(),
    ensures
        split_state(s.take(i + 1), c) == ({
            let (done, cur) = split_state(s.take(i), c);
            if s[i] == c {
                (done.push(cur), Seq::<char>::empty())
            } else {
                (done, cur.push(s[i]))
            }
        }),
{
    assert(s.take(i + 1).drop_last() =~= s.take(i));
}

/// The numeric components of a version string.
fn parse_version(s: &[char]) -> (r: Vec<u32>)
    ensures
        r@ == version_parts(s@),
{
    let mut k: usize = 0;
    assert(s@.skip(0) =~= s@);
    while k < s.len() && s[k] == 'v'
        invariant
            k <= s.len(),
            lead_char(s@, 'v') == k + lead_char(s@.skip(k as int), 'v'),
        decreases s.len() - k,
    {
        proof {
            assert(s@.skip(k as int).drop_first() =~= s@.skip(k + 1));
        }
        k = k + 1;
    }
    proof {
        if k < s.len() {
            assert(s@.skip(k as int)[0] == s@[k as int]);
        }
    }
    let t = slice_range(s, k, s.len());
    assert(t@ =~= strip_v(s@));
    let mut out: Vec<u32> = Vec::new();
    let mut cur: Vec<char> = Vec::new();
    let ghost mut done: Seq<Seq<char>> = Seq::empty();
    let mut i: usize = 0;
    assert(t@.take(0) =~= Seq::<char>::empty());
    assert(done.take(0) =~= done);
    while i < t.len()
        invariant
            i <= t.len(),
            split_state(t@.take(i as int), '.') == (done, cur@),
            out@ == parse_parts(done),
        decreases t.len() - i,
    {
        proof {
            lemma_split_state_step(t@, '.', i as int);
        }
        if t[i] == '.' {
            let p = parse_u32(cur.as_slice());
            proof {
                lemma_parse_parts_step(done.push(cur@), done.len() as int);
                assert(done.push(cur@).take(done.len() as int) =~= done);
                assert(done.push(cur@).take(done.len() as int + 1) =~= done.push(cur@));
                done = done.push(cur@);
            }
            match p {
                Some(v) => out.push(v),
                None => {},
            }
            cur = Vec::new();
        } else {
            cur.push(t[i]);
        }
        i = i + 1;
    }
    assert(t@.take(t@.len() as int) =~= t@);
    let p = parse_u32(cur.as_slice());
    proof {
        lemma_parse_parts_step(done.push(cur@), done.len() as int);
        assert(done.push(cur@).take(done.len() as int) =~= done);
        assert(done.push(cur@).take(done.len() as int + 1) =~= done.push(cur@));
    }
    match p {
        Some(v) => out.push(v),
        None => {},
    }
    out
}

/// True if version `latest` is strictly greater than `current` (`X.Y.Z`,
/// optional leading `v`; missing components count as 0, so `0.8` equals
/// `0.8.0`).
pub fn is_newer(latest: &str, current: &str) -> (b: bool)
    ensures
        b == newer(latest@, current@),
{
    let lc = chars_of(latest);
    let cc = chars_of(current);
    let l = parse_version(lc.as_slice());
    let c = parse_version(cc.as_slice());
    let n = if l.len() >= c.len() {
        l.len()
    } else {
        c.len()
    };
    let mut i: usize = 0;
    while i < n
        invariant
            n == max_len(l@, c@),
            l@ == version_parts(latest@),
            c@ == version_parts(current@),
            i <= n,
            newer_from(l@, c@, 0) == newer_from(l@, c@, i as int),
        decreases n - i,
    {
        let lv = if i < l.len() {
            l[i]
        } else {
            0
        };
        let cv = if i < c.len() {
            c[i]
        } else {
            0
        };
        assert(part(l@, i as int) == lv);
        assert(part(c@, i as int) == cv);
        if lv > cv {
            assert(newer_from(l@, c@, i as int));
            return true;
        }
        if lv < cv {
            assert(!newer_from(l@, c@, i as int));
            return false;
        }
        i = i + 1;
    }
    false
}

/// If the latest published release `latest` (when it could be fetched) is
/// newer than `current`, its tag without the leading `v`; otherwise `None`.
pub fn check_for_update(latest: Option<&str>, current: &str) -> (r: Option<String>)
    ensures
        r matches Some(t) ==> latest matches Some(l) && newer(l@, current@) && t@ == strip_v(l@),
        latest matches Some(l) && newer(l@, current@) ==> r is Some,
{
    match latest {
        None => None,
        Some(l) => {
            if is_newer(l, current) {
                let v = chars_of(l);
                let mut k: usize = 0;
                assert(v@.skip(0) =~= v@);
                while k < v.len() && v[k] == 'v'
                    invariant
                        k <= v.len(),
                        lead_char(v@, 'v') == k + lead_char(v@.skip(k as int), 'v'),
                    decreases v.len() - k,
                {
                    proof {
                        assert(v@.skip(k as int).drop_first() =~= v@.skip(k + 1));
                    }
                    k = k + 1;
                }
                proof {
                    if k < v.len() {
                        assert(v@.skip(k as int)[0] == v@[k as int]);
                    }
                }
                let t = slice_range(v.as_slice(), k, v.len());
                Some(string_of(t.as_slice()))
            } else {
                None
            }
        },
    }
}

// ----------------------------------------------------------------------
// Laws of the version order
// ----------------------------------------------------------------------

proof fn lemma_newer_from_irreflexive(v: Seq<u32>, i: int)
    ensures
        !newer_from(v, v, i),
    decreases max_len(v, v) - i,
{
    if 0 <= i < max_len(v, v) {
        lemma_newer_from_irreflexive(v, i + 1);
    }
}

proof fn lemma_newer_from_asymmetric(a: Seq<u32>, b: Seq<u32>, i: int)
    requires
        newer_from(a, b, i),
    ensures
        !newer_from(b, a, i),
    decreases max_len(a, b) - i,
{
    if 0 <= i < max_len(a, b) && part(a, i) == part(b, i) {
        lemma_newer_from_asymmetric(a, b, i + 1);
    }
}

proof fn lemma_newer_from_transitive(a: Seq<u32>, b: Seq<u32>, c: Seq<u32>, i: int)
    requires
        newer_from(a, b, i),
        newer_from(b, c, i),
        i >= 0,
    ensures
        newer_from(a, c, i),
    decreases max_len(a, b) + max_len(b, c) - 2 * i,
{
    if part(a, i) == part(b, i) && part(b, i) == part(c, i) {
        lemma_newer_from_transitive(a, b, c, i + 1);
        assert(i < max_len(a, c)) by {
            if i >= max_len(a, c) {
                lemma_newer_from_beyond(a, c, i + 1);
            }
        }
    } else {
        assert(i < max_len(a, c)) by {
            if i >= max_len(a, c) {
                assert(part(a, i) == 0 && part(c, i) == 0);
            }
        }
    }
}

proof fn lemma_newer_from_beyond(a: Seq<u32>, c: Seq<u32>, i: int)
    requires
        i >= max_len(a, c),
    ensures
        !newer_from(a, c, i),
{
}

/// No version is newer than itself.
pub proof fn lemma_newer_irreflexive(v: Seq<char>)
    ensures
        !newer(v, v),
{
    lemma_newer_from_irreflexive(version_parts(v), 0);
}

/// If `a` is newer than `b`, then `b` is not newer than `a`.
pub proof fn lemma_newer_asymmetric(a: Seq<char>, b: Seq<char>)
    requires
        newer(a, b),
    ensures
        !newer(b, a),
{
    lemma_newer_from_asymmetric(version_parts(a), version_parts(b), 0);
}

/// If `a` is newer than `b` and `b` newer than `c`, then `a` is newer than `c`.
pub proof fn lemma_newer_transitive(a: Seq<char>, b: Seq<char>, c: Seq<char>)
    requires
        newer(a, b),
        newer(b, c),
    ensures
        newer(a, c),
{
    lemma_newer_from_transitive(version_parts(a), version_parts(b), version_parts(c), 0);
}


proof fn lemma_newer_from_zero_tail(l: Seq<u32>, d: Seq<u32>, i: int)
    requires
        forall|j: int| j >= i ==> part(l, j) == 0 && part(d, j) == 0,
    ensures
        !newer_from(l, d, i),
    decreases max_len(l, d) - i,
{
    if 0 <= i < max_len(l, d) {
        assert(part(l, i) == 0 && part(d, i) == 0);
        lemma_newer_from_zero_tail(l, d, i + 1);
    }
}

proof fn lemma_newer_from_same_parts(a1: Seq<u32>, a2: Seq<u32>, b1: Seq<u32>, b2: Seq<u32>, i: int)
    requires
        forall|j: int| part(a1, j) == part(a2, j),
        forall|j: int| part(b1, j) == part(b2, j),
    ensures
        newer_from(a1, b1, i) == newer_from(a2, b2, i),
    decreases max_len(a1, b1) - i,
{
    if i < 0 {
    } else if i >= max_len(a1, b1) {
        assert forall|j: int| j >= i implies part(a2, j) == 0 && part(b2, j) == 0 by {
            assert(part(a1, j) == 0 && part(b1, j) == 0);
        }
        lemma_newer_from_zero_tail(a2, b2, i);
    } else if i >= max_len(a2, b2) {
        assert forall|j: int| j >= i implies part(a1, j) == 0 && part(b1, j) == 0 by {
            assert(part(a2, j) == 0 && part(b2, j) == 0);
        }
        lemma_newer_from_zero_tail(a1, b1, i);
    } else {
        assert(part(a1, i) == part(a2, i) && part(b1, i) == part(b2, i));
        lemma_newer_from_same_parts(a1, a2, b1, b2, i + 1);
    }
}

/// Versions with the same components, a missing one counting as zero,
/// compare alike: `0.8` and `0.8.0` stand for the same version.
pub proof fn lemma_newer_same_parts(a1: Seq<char>, a2: Seq<char>, b1: Seq<char>, b2: Seq<char>)
    requires
        forall|j: int| part(version_parts(a1), j) == part(version_parts(a2), j),
        forall|j: int| part(version_parts(b1), j) == part(version_parts(b2), j),
    ensures
        newer(a1, b1) == newer(a2, b2),
{
    lemma_newer_from_same_parts(
        version_parts(a1),
        version_parts(a2),
        version_parts(b1),
        version_parts(b2),
        0,
    );
}

/// A leading `v` does not change a version: `v0.8.0` compares as `0.8.0`,
/// on either side.
pub proof fn lemma_newer_ignores_v(a: Seq<char>, b: Seq<char>)
    ensures
        newer(seq!['v'] + a, b) == newer(a, b),
        newer(b, seq!['v'] + a) == newer(b, a),
{
    let va = seq!['v'] + a;
    assert(va[0] == 'v');
    assert(va.drop_first() =~= a);
    assert(lead_char(va, 'v') == 1 + lead_char(a, 'v'));
    lemma_lead_char_bound(a);
    assert(strip_v(va) =~= strip_v(a));
}

proof fn lemma_lead_char_bound(s: Seq<char>)
    ensures
        lead_char(s, 'v') <= s.len(),
    decreases s.len(),
{
    if s.len() > 0 && s[0] == 'v' {
        lemma_lead_char_bound(s.drop_first());
    }
}

} // verus!
