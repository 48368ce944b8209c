//! Naming of the profiles kept on disk (`~/.config/arch-postinstall/profiles/`,
//! one TOML file per profile). Reading, writing and listing the directory
//! happen outside the library.

use vstd::prelude::*;

use crate::order::{sort_strings, sort_texts};
use crate::text::{chars_of, has_suffix, push_char, views};
use crate::validate::is_ascii_alnum;

verus! {

/// Whether a character is alphanumeric (Unicode `Alphabetic` or `Numeric`),
/// as `char::is_alphanumeric` says.
pub uninterp spec fn alphanumeric(c: char) -> bool;

/// Calls `char::is_alphanumeric`. Its result is named `alphanumeric`; on
/// ASCII it holds exactly for letters and digits.
#[verifier::external_body]
fn is_alphanumeric(c: char) -> (b: bool)
    ensures
        b == alphanumeric(c),
        (c as u32) < 128 ==> (b == is_ascii_alnum(c)),
{
    c.is_alphanumeric()
}

/// A character kept in a profile's file name (alphanumeric, `-` or `_`);
/// any other becomes `-`. On ASCII, alphanumeric means a letter or a digit.
pub open spec fn name_char(c: char) -> char {
    let alnum = if (c as u32) < 128 {
        is_ascii_alnum(c)
    } else {
        alphanumeric(c)
    };
    if alnum || c == '-' || c == '_' {
        c
    } else {
        '-'
    }
}

/// The file name of a profile: its name with every character that is not
/// alphanumeric, `-` or `_` replaced by `-`, and `.toml` added.
pub open spec fn file_name_spec(name: Seq<char>) -> Seq<char> {
    name.map_values(|c: char| name_char(c)) + ".toml"@
}

/// The file a profile named `name` is kept in.
pub fn profile_file_name(name: &str) -> (r: String)
    ensures
        r@ == file_name_spec(name@),
{
    let v = chars_of(name);
    let mut out = String::new();
    let mut i: usize = 0;
    while i < v.len()
        invariant
            i <= v.len(),
            out@ == v@.take(i as int).map_values(|c: char| name_char(c)),
        decreases v.len() - i,
    {
        let c = v[i];
        let keep = is_alphanumeric(c) || c == '-' || c == '_';
        if keep {
            push_char(&mut out, c);
        } else {
            push_char(&mut out, '-');
        }
        assert(v@.take(i + 1).map_values(|c: char| name_char(c)) =~= v@.take(i as int).map_values(
            |c: char| name_char(c),
        ).push(name_char(c)));
        i = i + 1;
    }
    assert(v@.take(v@.len() as int) =~= v@);
    let r = out.concat(".toml");
    r
}

/// A profile's file name stays inside the profiles directory: before the
/// `.toml` ending it holds neither `/` nor `.`.
pub proof fn lemma_file_name_has_no_path(name: Seq<char>)
    ensures
        forall|i: int|
            0 <= i < name.len() ==> file_name_spec(name)[i] != '/' && file_name_spec(name)[i]
                != '.',
{
    assert forall|i: int| 0 <= i < name.len() implies file_name_spec(name)[i] != '/'
        && file_name_spec(name)[i] != '.' by {
        assert(file_name_spec(name)[i] == name_char(name[i]));
    }
}

/// The profile names among directory entries: each entry named `<name>.toml`
/// with a non-empty `<name>`, in order.
pub open spec fn toml_stems(es: Seq<Seq<char>>) -> Seq<Seq<char>>
    decreases es.len(),
{
    if es.len() == 0 {
        Seq::empty()
    } else {
        let e = es.last();
        if e.len() > 5 && has_suffix(e, ".toml"@) {
            toml_stems(es.drop_last()).push(e.take(e.len() - 5))
        } else {
            toml_stems(es.drop_last())
        }
    }
}

/// The names of the saved profiles, sorted, from the entries of the
/// profiles directory.
pub fn profile_names(entries: &Vec<String>) -> (r: Vec<String>)
    ensures
        views(r@) == sort_texts(toml_stems(views(entries@))),
{
    let ghost ev = views(entries@);
    let suffix = chars_of(".toml");
    proof {
        reveal_strlit(".toml");
    }
    let mut stems: Vec<String> = Vec::new();
    let mut i: usize = 0;
    assert(ev.take(0) =~= Seq::<Seq<char>>::empty());
    while i < entries.len()
        invariant
            i <= entries.len(),
            ev == views(entries@),
            suffix@ == ".toml"@,
            suffix@.len() == 5,
            views(stems@) == toml_stems(ev.take(i as int)),
        decreases entries.len() - i,
    {
        proof {
            assert(ev.take(i + 1).drop_last() =~= ev.take(i as int));
            assert(ev.take(i + 1).last() == ev[i as int]);
        }
        let e = chars_of(entries[i].as_str());
        if e.len() > 5 && crate::text::ends_with(e.as_slice(), suffix.as_slice()) {
            let stem = crate::text::slice_range(e.as_slice(), 0, e.len() - 5);
            let ghost before = views(stems@);
            stems.push(crate::text::string_of(stem.as_slice()));
            assert(stem@ =~= e@.take(e@.len() - 5));
            assert(views(stems@) =~= before.push(stem@));
        }
        i = i + 1;
    }
    assert(ev.take(entries.len() as int) =~= ev);
    sort_strings(&stems)
}

} // verus!
