//! Live package search against the public Arch Linux APIs:
//!
//! - official repositories: `https://archlinux.org/packages/search/json/`
//! - AUR (RPC v5): `https://aur.archlinux.org/rpc/v5/search/`
//!
//! The library builds the request URL and turns the packages a reply lists
//! into the search result; the HTTP request and the JSON decoding happen
//! outside it.

use vstd::prelude::*;

use crate::model::Source;
use crate::order::{first_above, insert_by_key, sort_by_key, sorted_by_key, text_less};
use crate::text::{cat, cat3, chars_of, push_char, str_eq};

verus! {

/// One package found by a search.
#[derive(Debug)]
pub struct Found {
    pub name: String,
    pub description: String,
}

/// Most results a search returns.
pub const MAX_RESULTS: usize = 50;

/// The UTF-8 bytes of a string.
pub open spec fn utf8_of(s: &str) -> Seq<u8> {
    vstd::string::StringSliceAdditionalSpecFns::spec_bytes(s)
}

/// A byte that stays as it is in a URL: ASCII letters, digits, `-_.~`.
pub open spec fn unreserved(b: u8) -> bool {
    (65 <= b <= 90) || (97 <= b <= 122) || (48 <= b <= 57) || b == 45 || b == 95 || b == 46
        || b == 126
}

/// Upper-case hexadecimal digit of `n < 16`.
pub open spec fn hex_digit(n: u8) -> char {
    if n < 10 {
        (n + 48) as char
    } else {
        (n + 55) as char
    }
}

/// How one byte is written in a URL: itself, or `%` and two hex digits.
pub open spec fn encode_byte(b: u8) -> Seq<char> {
    if unreserved(b) {
        seq![b as char]
    } else {
        seq!['%', hex_digit(b / 16), hex_digit(b % 16)]
    }
}

/// Percent-encoding of a byte string.
pub open spec fn url_encode_spec(bs: Seq<u8>) -> Seq<char>
    decreases bs.len(),
{
    if bs.len() == 0 {
        Seq::empty()
    } else {
        url_encode_spec(bs.drop_last()) + encode_byte(bs.last())
    }
}

/// The value of a hexadecimal digit (either case); -1 for any other
/// character.
pub open spec fn hex_value(c: char) -> int {
    if '0' <= c <= '9' {
        c as int - 48
    } else if 'A' <= c <= 'F' {
        c as int - 55
    } else if 'a' <= c <= 'f' {
        c as int - 87
    } else {
        -1
    }
}

/// Percent-decoding, read from the front: `%` and two hexadecimal digits
/// stand for the byte they spell, any other character for its own code.
pub open spec fn url_decode_spec(cs: Seq<char>) -> Seq<u8>
    decreases cs.len(),
{
    if cs.len() == 0 {
        Seq::empty()
    } else if cs.len() >= 3 && cs[0] == '%' && hex_value(cs[1]) >= 0 && hex_value(cs[2]) >= 0 {
        seq![(hex_value(cs[1]) * 16 + hex_value(cs[2])) as u8] + url_decode_spec(cs.skip(3))
    } else {
        seq![cs[0] as u8] + url_decode_spec(cs.skip(1))
    }
}

proof fn lemma_decode_byte(b: u8, rest: Seq<char>)
    ensures
        url_decode_spec(encode_byte(b) + rest) == seq![b] + url_decode_spec(rest),
{
    let e = encode_byte(b) + rest;
    if unreserved(b) {
        assert(e[0] == b as char);
        assert(e.skip(1) =~= rest);
        assert((b as char) as u8 == b);
    } else {
        assert(b / 16 < 16 && b % 16 < 16);
        assert(e[0] == '%' && e[1] == hex_digit(b / 16) && e[2] == hex_digit(b % 16));
        assert(hex_value(hex_digit(b / 16)) == b / 16);
        assert(hex_value(hex_digit(b % 16)) == b % 16);
        assert(e.skip(3) =~= rest);
        assert(((b / 16) * 16 + b % 16) as u8 == b);
    }
}

proof fn lemma_encode_front(bs: Seq<u8>)
    requires
        bs.len() > 0,
    ensures
        url_encode_spec(bs) == encode_byte(bs[0]) + url_encode_spec(bs.drop_first()),
    decreases bs.len(),
{
    if bs.len() == 1 {
        assert(bs.drop_last() =~= Seq::<u8>::empty());
        assert(bs.drop_first() =~= Seq::<u8>::empty());
        assert(bs.last() == bs[0]);
        let p = bs.drop_last();
        assert(p.len() == 0);
        assert(url_encode_spec(p) == Seq::<char>::empty());
        assert(url_encode_spec(bs.drop_first()) == Seq::<char>::empty());
        assert(url_encode_spec(bs) == url_encode_spec(p) + encode_byte(bs.last()));
        assert(url_encode_spec(bs) =~= encode_byte(bs[0]) + Seq::<char>::empty());
    } else {
        let p = bs.drop_last();
        lemma_encode_front(p);
        assert(p[0] == bs[0]);
        assert(p.drop_first() =~= bs.drop_first().drop_last());
        assert(bs.drop_first().last() == bs.last());
        assert(url_encode_spec(bs) =~= encode_byte(bs[0]) + (url_encode_spec(p.drop_first())
            + encode_byte(bs.last())));
    }
}

/// Decoding an encoding gives back the bytes that were encoded.
pub proof fn lemma_url_decode_encode(bs: Seq<u8>)
    ensures
        url_decode_spec(url_encode_spec(bs)) == bs,
    decreases bs.len(),
{
    if bs.len() > 0 {
        lemma_encode_front(bs);
        lemma_decode_byte(bs[0], url_encode_spec(bs.drop_first()));
        lemma_url_decode_encode(bs.drop_first());
        assert(seq![bs[0]] + bs.drop_first() =~= bs);
    }
}

/// A character that can stand in a URL query unescaped.
pub open spec fn url_safe(c: char) -> bool {
    ('A' <= c <= 'Z') || ('a' <= c <= 'z') || ('0' <= c <= '9') || c == '-' || c == '_'
        || c == '.' || c == '~' || c == '%'
}

/// Encoding gives only characters that are safe in a URL.
pub proof fn lemma_url_encode_safe(bs: Seq<u8>)
    ensures
        forall|i: int| 0 <= i < url_encode_spec(bs).len() ==> url_safe(#[trigger] url_encode_spec(bs)[i]),
    decreases bs.len(),
{
    if bs.len() > 0 {
        lemma_url_encode_safe(bs.drop_last());
        let a = url_encode_spec(bs.drop_last());
        let e = encode_byte(bs.last());
        let b = bs.last();
        assert(b / 16 < 16 && b % 16 < 16);
        assert forall|i: int| 0 <= i < (a + e).len() implies url_safe(#[trigger] (a + e)[i]) by {
            if i >= a.len() {
                assert((a + e)[i] == e[i - a.len()]);
            }
        }
    }
}

/// A term made only of unreserved bytes is kept as it is.
pub proof fn lemma_url_encode_keeps_unreserved(bs: Seq<u8>)
    requires
        forall|i: int| 0 <= i < bs.len() ==> unreserved(#[trigger] bs[i]),
    ensures
        url_encode_spec(bs) == bs.map_values(|b: u8| b as char),
    decreases bs.len(),
{
    if bs.len() > 0 {
        lemma_url_encode_keeps_unreserved(bs.drop_last());
        assert(bs.last() == bs[bs.len() - 1]);
        assert(bs.map_values(|b: u8| b as char) =~= bs.drop_last().map_values(|b: u8| b as char)
            + seq![bs.last() as char]);
    } else {
        assert(bs.map_values(|b: u8| b as char) =~= Seq::<char>::empty());
    }
}

fn hex_char(n: u8) -> (c: char)
    requires
        n < 16,
    ensures
        c == hex_digit(n),
{
    if n < 10 {
        (n + 48) as char
    } else {
        (n + 55) as char
    }
}

/// Percent-encodes a search term for a URL: the bytes of its UTF-8 form
/// that are ASCII letters, digits or `-_.~` stay; every other byte becomes
/// `%` and two upper-case hex digits.
pub fn url_encode(term: &str) -> (r: String)
    ensures
        r@ == url_encode_spec(utf8_of(term)),
{
    let bytes = term.as_bytes();
    let ghost bs = utf8_of(term);
    let mut out = String::new();
    let mut i: usize = 0;
    assert(bs.take(0) =~= Seq::<u8>::empty());
    while i < bytes.len()
        invariant
            i <= bytes.len(),
            bytes@ == bs,
            out@ == url_encode_spec(bs.take(i as int)),
        decreases bytes.len() - i,
    {
        let b = bytes[i];
        proof {
            assert(bs.take(i + 1).drop_last() =~= bs.take(i as int));
            assert(bs.take(i + 1).last() == b);
        }
        let keep = (65 <= b && b <= 90) || (97 <= b && b <= 122) || (48 <= b && b <= 57) || b
            == 45 || b == 95 || b == 46 || b == 126;
        if keep {
            push_char(&mut out, b as char);
            proof {
                assert(url_encode_spec(bs.take(i + 1)) =~= url_encode_spec(bs.take(i as int))
                    + seq![b as char]);
            }
        } else {
            push_char(&mut out, '%');
            push_char(&mut out, hex_char(b / 16));
            push_char(&mut out, hex_char(b % 16));
            proof {
                assert(url_encode_spec(bs.take(i + 1)) =~= url_encode_spec(bs.take(i as int))
                    + seq!['%', hex_digit(b / 16), hex_digit(b % 16)]);
            }
        }
        i = i + 1;
    }
    assert(bs.take(bytes.len() as int) =~= bs);
    out
}

/// The request URL of a search.
pub open spec fn search_url_spec(source: Source, term: &str) -> Seq<char> {
    match source {
        Source::Official => "https://archlinux.org/packages/search/json/?q="@ + url_encode_spec(
            utf8_of(term),
        ),
        Source::Aur => "https://aur.archlinux.org/rpc/v5/search/"@ + url_encode_spec(
            utf8_of(term),
        ) + "?by=name-desc"@,
    }
}

/// The URL that searches `source` for `term` (by name and description in
/// the AUR).
pub fn search_url(source: Source, term: &str) -> (r: String)
    ensures
        r@ == search_url_spec(source, term),
{
    let enc = url_encode(term);
    match source {
        Source::Official => cat("https://archlinux.org/packages/search/json/?q=", enc.as_str()),
        Source::Aur => cat3(
            "https://aur.archlinux.org/rpc/v5/search/",
            enc.as_str(),
            "?by=name-desc",
        ),
    }
}

/// Name and description of a found package.
pub open spec fn found_view(f: Found) -> (Seq<char>, Seq<char>) {
    (f.name@, f.description@)
}

/// Name and description of each found package.
pub open spec fn found_views(v: Seq<Found>) -> Seq<(Seq<char>, Seq<char>)> {
    v.map_values(|f: Found| found_view(f))
}

/// The key results are sorted by: the name.
pub open spec fn by_name(p: (Seq<char>, Seq<char>)) -> Seq<char> {
    p.0
}

/// Some entry of `s` has the name `n`.
pub open spec fn has_name(s: Seq<(Seq<char>, Seq<char>)>, n: Seq<char>) -> bool {
    exists|k: int| 0 <= k < s.len() && (#[trigger] s[k]).0 == n
}

/// The first entry of each name, in their order (the official API lists a
/// package once per architecture).
pub open spec fn first_of_each(s: Seq<(Seq<char>, Seq<char>)>) -> Seq<(Seq<char>, Seq<char>)>
    decreases s.len(),
{
    if s.len() == 0 {
        s
    } else if has_name(first_of_each(s.drop_last()), s.last().0) {
        first_of_each(s.drop_last())
    } else {
        first_of_each(s.drop_last()).push(s.last())
    }
}

/// The results of a search from what the API listed: for the official
/// repositories only the first entry of each name, then sorted by name
/// (stably) and cut to `MAX_RESULTS`.
pub open spec fn results_spec(source: Source, listed: Seq<(Seq<char>, Seq<char>)>) -> Seq<
    (Seq<char>, Seq<char>),
> {
    let kept = match source {
        Source::Official => first_of_each(listed),
        Source::Aur => listed,
    };
    let sorted = sort_by_key(kept, |p: (Seq<char>, Seq<char>)| by_name(p));
    if sorted.len() <= MAX_RESULTS {
        sorted
    } else {
        sorted.take(MAX_RESULTS as int)
    }
}

/// In what `first_of_each` keeps no two entries share a name.
pub proof fn lemma_first_of_each_unique(s: Seq<(Seq<char>, Seq<char>)>)
    ensures
        forall|i: int, j: int|
            0 <= i < j < first_of_each(s).len() ==> (#[trigger] first_of_each(s)[i]).0
                != (#[trigger] first_of_each(s)[j]).0,
    decreases s.len(),
{
    if s.len() > 0 {
        lemma_first_of_each_unique(s.drop_last());
        let d = first_of_each(s.drop_last());
        if !has_name(d, s.last().0) {
            let r = d.push(s.last());
            assert forall|i: int, j: int| 0 <= i < j < r.len() implies (#[trigger] r[i]).0
                != (#[trigger] r[j]).0 by {
                if j == d.len() {
                    assert(r[i] == d[i]);
                    if d[i].0 == s.last().0 {
                        assert(has_name(d, s.last().0));
                    }
                } else {
                    assert(r[i] == d[i] && r[j] == d[j]);
                }
            }
        }
    }
}

/// Search results are sorted by name and never more than `MAX_RESULTS`.
pub proof fn lemma_results_sorted(source: Source, listed: Seq<(Seq<char>, Seq<char>)>)
    ensures
        sorted_by_key(results_spec(source, listed), |p: (Seq<char>, Seq<char>)| by_name(p)),
        results_spec(source, listed).len() <= MAX_RESULTS,
{
    let key = |p: (Seq<char>, Seq<char>)| by_name(p);
    let kept = match source {
        Source::Official => first_of_each(listed),
        Source::Aur => listed,
    };
    crate::order::lemma_sort_by_key_sorted(kept, key);
    let sorted = sort_by_key(kept, key);
    if sorted.len() > MAX_RESULTS {
        let t = sorted.take(MAX_RESULTS as int);
        assert forall|i: int, j: int| 0 <= i < j < t.len() implies !crate::order::text_lt(
            key(t[j]),
            key(t[i]),
        ) by {
            assert(t[i] == sorted[i] && t[j] == sorted[j]);
        }
    }
}

fn has_name_exec(out: &Vec<Found>, name: &str) -> (r: bool)
    ensures
        r == has_name(found_views(out@), name@),
{
    let ghost vs = found_views(out@);
    let mut i: usize = 0;
    while i < out.len()
        invariant
            i <= out.len(),
            vs == found_views(out@),
            forall|k: int| 0 <= k < i ==> (#[trigger] vs[k]).0 != name@,
        decreases out.len() - i,
    {
        if str_eq(out[i].name.as_str(), name) {
            assert(vs[i as int].0 == name@);
            return true;
        }
        i = i + 1;
    }
    false
}

fn copy_found(f: &Found) -> (r: Found)
    ensures
        found_view(r) == found_view(*f),
{
    Found { name: f.name.clone(), description: f.description.clone() }
}

fn first_of_each_exec(v: &Vec<Found>) -> (r: Vec<Found>)
    ensures
        found_views(r@) == first_of_each(found_views(v@)),
{
    let ghost vs = found_views(v@);
    let mut out: Vec<Found> = Vec::new();
    let mut i: usize = 0;
    assert(vs.take(0) =~= Seq::<(Seq<char>, Seq<char>)>::empty());
    while i < v.len()
        invariant
            i <= v.len(),
            vs == found_views(v@),
            found_views(out@) == first_of_each(vs.take(i as int)),
        decreases v.len() - i,
    {
        proof {
            assert(vs.take(i + 1).drop_last() =~= vs.take(i as int));
            assert(vs.take(i + 1).last() == vs[i as int]);
        }
        if !has_name_exec(&out, v[i].name.as_str()) {
            let ghost before = out@;
            out.push(copy_found(&v[i]));
            proof {
                assert(found_views(out@) =~= found_views(before).push(vs[i as int]));
            }
        }
        i = i + 1;
    }
    assert(vs.take(v.len() as int) =~= vs);
    out
}

fn name_position(out: &Vec<Found>, x: &Found) -> (p: usize)
    ensures
        p == first_above(
            found_views(out@),
            found_view(*x),
            |q: (Seq<char>, Seq<char>)| by_name(q),
        ),
{
    let ghost vs = found_views(out@);
    let ghost key = |q: (Seq<char>, Seq<char>)| by_name(q);
    let xs = chars_of(x.name.as_str());
    let mut i: usize = 0;
    assert(vs.skip(0) =~= vs);
    loop
        invariant
            i <= out.len(),
            vs == found_views(out@),
            key == (|q: (Seq<char>, Seq<char>)| by_name(q)),
            xs@ == x.name@,
            first_above(vs, found_view(*x), key) == i + first_above(
                vs.skip(i as int),
                found_view(*x),
                key,
            ),
        decreases out.len() - i,
    {
        if i == out.len() {
            assert(vs.skip(i as int).len() == 0);
            return i;
        }
        let e = chars_of(out[i].name.as_str());
        assert(vs[i as int].0 == e@);
        assert(vs.skip(i as int)[0] == vs[i as int]);
        if text_less(xs.as_slice(), e.as_slice()) {
            return i;
        }
        proof {
            assert(vs.skip(i as int).drop_first() =~= vs.skip(i + 1));
        }
        i = i + 1;
    }
}

fn sort_by_name(v: &Vec<Found>) -> (r: Vec<Found>)
    ensures
        found_views(r@) == sort_by_key(found_views(v@), |q: (Seq<char>, Seq<char>)| by_name(q)),
{
    let ghost vs = found_views(v@);
    let ghost key = |q: (Seq<char>, Seq<char>)| by_name(q);
    let mut out: Vec<Found> = Vec::new();
    let mut i: usize = 0;
    assert(vs.take(0) =~= Seq::<(Seq<char>, Seq<char>)>::empty());
    while i < v.len()
        invariant
            i <= v.len(),
            vs == found_views(v@),
            key == (|q: (Seq<char>, Seq<char>)| by_name(q)),
            found_views(out@) == sort_by_key(vs.take(i as int), key),
        decreases v.len() - i,
    {
        let x = copy_found(&v[i]);
        let p = name_position(&out, &x);
        proof {
            assert(vs.take(i + 1).drop_last() =~= vs.take(i as int));
            assert(vs.take(i + 1).last() == vs[i as int]);
            crate::order::lemma_first_above(found_views(out@), found_view(x), key);
        }
        let ghost before = out@;
        let ghost xv = found_view(x);
        out.insert(p, x);
        proof {
            assert(found_views(out@) =~= found_views(before).insert(p as int, xv));
            assert(insert_by_key(found_views(before), xv, key) == found_views(before).insert(
                p as int,
                xv,
            ));
        }
        i = i + 1;
    }
    assert(vs.take(v.len() as int) =~= vs);
    out
}

/// The result of a search from the reply of the API: the packages it
/// listed, in its order, or why there was no usable reply. For the official
/// repositories only the first entry of each name is kept; then the list is
/// sorted by name and cut to `MAX_RESULTS`. An error is passed on as it is.
pub fn search(source: Source, reply: Result<Vec<Found>, String>) -> (r: Result<Vec<Found>, String>)
    ensures
        match reply {
            Ok(listed) => r matches Ok(v) && found_views(v@) == results_spec(
                source,
                found_views(listed@),
            ),
            Err(e) => r == Err::<Vec<Found>, String>(e),
        },
{
    match reply {
        Ok(listed) => {
            let kept = match source {
                Source::Official => first_of_each_exec(&listed),
                Source::Aur => listed,
            };
            let mut sorted = sort_by_name(&kept);
            if sorted.len() > MAX_RESULTS {
                let ghost before = found_views(sorted@);
                sorted.truncate(MAX_RESULTS);
                assert(found_views(sorted@) =~= before.take(MAX_RESULTS as int));
            }
            Ok(sorted)
        },
        Err(e) => Err(e),
    }
}

} // verus!
