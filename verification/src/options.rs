//! Option lists for the searchable pickers (locales, time zones, console
//! keymaps).
//!
//! Each list comes from the system when it can be read (the best source on a
//! freshly installed Arch) and otherwise falls back to a short list of common
//! values, so a picker is never empty. Reading the files and running
//! `localectl` happen outside the library; these functions decide from what
//! was read.

use vstd::prelude::*;

use crate::order::{
    itself, sort_dedup_strings, sort_strings, sort_texts, dedup_texts, sorted_by_key,
    lemma_sort_by_key_sorted,
};
use crate::text::{
    chars_of, first_words, first_words_of_lines, has_suffix, lines_seq, nonblank_lines,
    nonblank_lines_of, owned, slice_range, string_of, views, ends_with,
};

verus! {

/// The common locales offered when the system list cannot be read.
pub open spec fn fallback_locales_spec() -> Seq<Seq<char>> {
    seq![
        "C"@,
        "POSIX"@,
        "en_US.UTF-8"@,
        "en_GB.UTF-8"@,
        "es_ES.UTF-8"@,
        "es_MX.UTF-8"@,
        "es_AR.UTF-8"@,
        "es_CL.UTF-8"@,
        "fr_FR.UTF-8"@,
        "de_DE.UTF-8"@,
        "it_IT.UTF-8"@,
        "pt_BR.UTF-8"@,
        "pt_PT.UTF-8"@,
        "ru_RU.UTF-8"@,
        "ja_JP.UTF-8"@,
        "zh_CN.UTF-8"@,
    ]
}

/// The common time zones offered when the system list cannot be read.
pub open spec fn fallback_timezones_spec() -> Seq<Seq<char>> {
    seq![
        "UTC"@,
        "America/Mexico_City"@,
        "America/New_York"@,
        "America/Chicago"@,
        "America/Denver"@,
        "America/Los_Angeles"@,
        "America/Argentina/Buenos_Aires"@,
        "America/Santiago"@,
        "America/Bogota"@,
        "America/Lima"@,
        "Europe/Madrid"@,
        "Europe/London"@,
        "Europe/Paris"@,
        "Europe/Berlin"@,
        "Europe/Rome"@,
        "Europe/Lisbon"@,
    ]
}

/// The common console keymaps offered when the system list cannot be read.
pub open spec fn fallback_keymaps_spec() -> Seq<Seq<char>> {
    seq![
        "us"@,
        "es"@,
        "la-latin1"@,
        "uk"@,
        "de"@,
        "de-latin1"@,
        "fr"@,
        "fr-latin1"@,
        "it"@,
        "pt"@,
    ]
}

/// Common locales, sorted.
pub fn fallback_locales() -> (r: Vec<String>)
    ensures
        views(r@) == sort_texts(fallback_locales_spec()),
        sorted_by_key(views(r@), |t: Seq<char>| itself(t)),
{
    let v = vec![
        owned("C"),
        owned("POSIX"),
        owned("en_US.UTF-8"),
        owned("en_GB.UTF-8"),
        owned("es_ES.UTF-8"),
        owned("es_MX.UTF-8"),
        owned("es_AR.UTF-8"),
        owned("es_CL.UTF-8"),
        owned("fr_FR.UTF-8"),
        owned("de_DE.UTF-8"),
        owned("it_IT.UTF-8"),
        owned("pt_BR.UTF-8"),
        owned("pt_PT.UTF-8"),
        owned("ru_RU.UTF-8"),
        owned("ja_JP.UTF-8"),
        owned("zh_CN.UTF-8"),
    ];
    assert(views(v@) =~= fallback_locales_spec());
    proof {
        lemma_sort_by_key_sorted(fallback_locales_spec(), |t: Seq<char>| itself(t));
    }
    sort_strings(&v)
}

/// Common time zones, sorted.
pub fn fallback_timezones() -> (r: Vec<String>)
    ensures
        views(r@) == sort_texts(fallback_timezones_spec()),
        sorted_by_key(views(r@), |t: Seq<char>| itself(t)),
{
    let v = vec![
        owned("UTC"),
        owned("America/Mexico_City"),
        owned("America/New_York"),
        owned("America/Chicago"),
        owned("America/Denver"),
        owned("America/Los_Angeles"),
        owned("America/Argentina/Buenos_Aires"),
        owned("America/Santiago"),
        owned("America/Bogota"),
        owned("America/Lima"),
        owned("Europe/Madrid"),
        owned("Europe/London"),
        owned("Europe/Paris"),
        owned("Europe/Berlin"),
        owned("Europe/Rome"),
        owned("Europe/Lisbon"),
    ];
    assert(views(v@) =~= fallback_timezones_spec());
    proof {
        lemma_sort_by_key_sorted(fallback_timezones_spec(), |t: Seq<char>| itself(t));
    }
    sort_strings(&v)
}

/// Common console keymaps, sorted.
pub fn fallback_keymaps() -> (r: Vec<String>)
    ensures
        views(r@) == sort_texts(fallback_keymaps_spec()),
        sorted_by_key(views(r@), |t: Seq<char>| itself(t)),
{
    let v = vec![
        owned("us"),
        owned("es"),
        owned("la-latin1"),
        owned("uk"),
        owned("de"),
        owned("de-latin1"),
        owned("fr"),
        owned("fr-latin1"),
        owned("it"),
        owned("pt"),
    ];
    assert(views(v@) =~= fallback_keymaps_spec());
    proof {
        lemma_sort_by_key_sorted(fallback_keymaps_spec(), |t: Seq<char>| itself(t));
    }
    sort_strings(&v)
}

/// The locale list: the first word of each line of
/// `/usr/share/i18n/SUPPORTED` (when it could be read), sorted and without
/// repeats; the fallback list when that leaves nothing.
pub open spec fn locales_spec(supported: Option<Seq<char>>) -> Seq<Seq<char>> {
    let read = match supported {
        Some(body) => dedup_texts(sort_texts(first_words(lines_seq(body)))),
        None => Seq::empty(),
    };
    if read.len() > 0 {
        read
    } else {
        sort_texts(fallback_locales_spec())
    }
}

/// The locale list from the contents of `/usr/share/i18n/SUPPORTED`, if it
/// could be read.
pub fn locales(supported: Option<&str>) -> (r: Vec<String>)
    ensures
        views(r@) == locales_spec(match supported {
            Some(s) => Some(s@),
            None => None,
        }),
{
    if let Some(body) = supported {
        let words = first_words_of_lines(body);
        let out = sort_dedup_strings(&words);
        if out.len() > 0 {
            return out;
        }
    }
    fallback_locales()
}

/// A name or list read from the system, sorted and without repeats, or the
/// fallback when nothing was read.
pub open spec fn listed_or(read: Option<Seq<Seq<char>>>, fallback: Seq<Seq<char>>) -> Seq<
    Seq<char>,
> {
    let r = match read {
        Some(v) => dedup_texts(sort_texts(v)),
        None => Seq::empty(),
    };
    if r.len() > 0 {
        r
    } else {
        sort_texts(fallback)
    }
}

/// The time zone list from the zone names found under
/// `/usr/share/zoneinfo`, if the directory could be walked.
pub fn timezones(found: Option<Vec<String>>) -> (r: Vec<String>)
    ensures
        views(r@) == listed_or(
            match found {
                Some(v) => Some(views(v@)),
                None => None,
            },
            fallback_timezones_spec(),
        ),
{
    if let Some(v) = found {
        let out = sort_dedup_strings(&v);
        if out.len() > 0 {
            return out;
        }
    }
    fallback_timezones()
}

/// Whether the zoneinfo walk skips an entry: the alternative trees `posix`
/// and `right`, and files that are not zones (`*.tab`, hidden files).
pub open spec fn zoneinfo_skip_spec(name: Seq<char>, is_dir: bool) -> bool {
    name == "posix"@ || name == "right"@ || (!is_dir && (has_suffix(name, ".tab"@) || (
    name.len() > 0 && name[0] == '.')))
}

/// Whether the walk of `/usr/share/zoneinfo` skips the entry `name`.
pub fn zoneinfo_skips(name: &str, is_dir: bool) -> (b: bool)
    ensures
        b == zoneinfo_skip_spec(name@, is_dir),
{
    let n = chars_of(name);
    let tab = chars_of(".tab");
    if crate::text::str_eq(name, "posix") || crate::text::str_eq(name, "right") {
        return true;
    }
    if is_dir {
        return false;
    }
    ends_with(n.as_slice(), tab.as_slice()) || (n.len() > 0 && n[0] == '.')
}

/// `s` without every trailing repetition of `p` (`str::trim_end_matches`).
pub open spec fn trim_end_all(s: Seq<char>, p: Seq<char>) -> Seq<char>
    decreases s.len(),
{
    if p.len() > 0 && has_suffix(s, p) {
        trim_end_all(s.take(s.len() - p.len()), p)
    } else {
        s
    }
}

fn trim_end_text(s: &[char], p: &str) -> (r: Vec<char>)
    ensures
        r@ == trim_end_all(s@, p@),
{
    let pv = chars_of(p);
    let mut end: usize = s.len();
    assert(s@.take(s@.len() as int) =~= s@);
    loop
        invariant
            end <= s.len(),
            pv@ == p@,
            trim_end_all(s@, p@) == trim_end_all(s@.take(end as int), p@),
        decreases end,
    {
        let cur = slice_range(s, 0, end);
        assert(cur@ == s@.take(end as int));
        if pv.len() > 0 && ends_with(cur.as_slice(), pv.as_slice()) {
            proof {
                assert(s@.take(end as int).take(end - pv@.len()) =~= s@.take(end - pv@.len()));
            }
            end = end - pv.len();
        } else {
            return cur;
        }
    }
}

/// The keymap name of a file below `/usr/share/kbd/keymaps`: its relative
/// path without the `.gz`, `.map` and `.kmap` endings, each removed as many
/// times as it repeats, in that order.
pub open spec fn keymap_name_spec(rel: Seq<char>) -> Seq<char> {
    trim_end_all(trim_end_all(trim_end_all(rel, ".gz"@), ".map"@), ".kmap"@)
}

/// The keymap name of a keymap file, from its path relative to the keymaps
/// directory.
pub fn keymap_name(rel: &str) -> (r: String)
    ensures
        r@ == keymap_name_spec(rel@),
{
    let v = chars_of(rel);
    let a = trim_end_text(v.as_slice(), ".gz");
    let b = trim_end_text(a.as_slice(), ".map");
    let c = trim_end_text(b.as_slice(), ".kmap");
    string_of(c.as_slice())
}

/// The keymap list: the non-blank trimmed lines of `localectl list-keymaps`
/// (when it succeeded), sorted; otherwise the names found under
/// `/usr/share/kbd/keymaps`, sorted and without repeats; otherwise the
/// fallback list.
pub open spec fn keymaps_spec(
    localectl: Option<Seq<char>>,
    walked: Option<Seq<Seq<char>>>,
) -> Seq<Seq<char>> {
    let listed = match localectl {
        Some(out) => sort_texts(nonblank_lines(out)),
        None => Seq::empty(),
    };
    if listed.len() > 0 {
        listed
    } else {
        listed_or(walked, fallback_keymaps_spec())
    }
}

/// The keymap list from the output of a successful `localectl list-keymaps`
/// and the names found by walking the keymaps directory, each if available.
pub fn keymaps(localectl: Option<&str>, walked: Option<Vec<String>>) -> (r: Vec<String>)
    ensures
        views(r@) == keymaps_spec(
            match localectl {
                Some(s) => Some(s@),
                None => None,
            },
            match walked {
                Some(v) => Some(views(v@)),
                None => None,
            },
        ),
{
    if let Some(out) = localectl {
        let keys = nonblank_lines_of(out);
        if keys.len() > 0 {
            proof {
                crate::order::lemma_sort_by_key_len(views(keys@), |t: Seq<char>| itself(t));
            }
            let sorted = sort_strings(&keys);
            return sorted;
        }
    }
    if let Some(v) = walked {
        let out = sort_dedup_strings(&v);
        if out.len() > 0 {
            return out;
        }
    }
    fallback_keymaps()
}

} // verus!
