//! Validators for the values the user types in (hostname, locale, keymap,
//! time zone). An invalid value never reaches the installer: it is left out of
//! the plan.

use vstd::prelude::*;

use crate::text::chars_of;

verus! {

/// ASCII letter or digit.
pub open spec fn is_ascii_alnum(c: char) -> bool {
    let u = c as u32;
    (0x30 <= u <= 0x39) || (0x41 <= u <= 0x5A) || (0x61 <= u <= 0x7A)
}

/// Characters allowed in a hostname.
pub open spec fn hostname_char(c: char) -> bool {
    is_ascii_alnum(c) || c == '-'
}

/// Characters allowed in a locale name.
pub open spec fn locale_char(c: char) -> bool {
    is_ascii_alnum(c) || c == '_' || c == '.' || c == '-'
}

/// Characters allowed in a console keymap name.
pub open spec fn keymap_char(c: char) -> bool {
    is_ascii_alnum(c) || c == '-' || c == '_'
}

/// Characters allowed in a time zone name.
pub open spec fn timezone_char(c: char) -> bool {
    is_ascii_alnum(c) || c == '_' || c == '/'
}

/// Simplified RFC 1123 hostname: 1 to 63 letters, digits and hyphens, not
/// starting or ending with a hyphen.
pub open spec fn valid_hostname(s: Seq<char>) -> bool {
    &&& 0 < s.len() <= 63
    &&& s[0] != '-'
    &&& s.last() != '-'
    &&& forall|i: int| 0 <= i < s.len() ==> hostname_char(#[trigger] s[i])
}

/// A plausible locale name: 1 to 60 letters, digits, `_`, `.` and `-`.
pub open spec fn valid_locale(s: Seq<char>) -> bool {
    &&& 0 < s.len() <= 60
    &&& forall|i: int| 0 <= i < s.len() ==> locale_char(#[trigger] s[i])
}

/// A plausible console keymap: 1 to 50 letters, digits, `-` and `_`.
pub open spec fn valid_keymap(s: Seq<char>) -> bool {
    &&& 0 < s.len() <= 50
    &&& forall|i: int| 0 <= i < s.len() ==> keymap_char(#[trigger] s[i])
}

/// A plausible IANA zone name: 1 to 60 letters, digits, `_` and `/`, with no
/// `/` at either end and no two `/` in a row.
pub open spec fn valid_timezone(s: Seq<char>) -> bool {
    &&& 0 < s.len() <= 60
    &&& s[0] != '/'
    &&& s.last() != '/'
    &&& forall|i: int| 0 <= i < s.len() - 1 ==> !(#[trigger] s[i] == '/' && s[i + 1] == '/')
    &&& forall|i: int| 0 <= i < s.len() ==> timezone_char(#[trigger] s[i])
}

fn is_ascii_alnum_exec(c: char) -> (b: bool)
    ensures
        b == is_ascii_alnum(c),
{
    let u = c as u32;
    (0x30 <= u && u <= 0x39) || (0x41 <= u && u <= 0x5A) || (0x61 <= u && u <= 0x7A)
}

/// Which character class a check uses.
enum Class {
    Hostname,
    Locale,
    Keymap,
    Timezone,
}

spec fn in_class(k: Class, c: char) -> bool {
    match k {
        Class::Hostname => hostname_char(c),
        Class::Locale => locale_char(c),
        Class::Keymap => keymap_char(c),
        Class::Timezone => timezone_char(c),
    }
}

fn in_class_exec(k: &Class, c: char) -> (b: bool)
    ensures
        b == in_class(*k, c),
{
    let a = is_ascii_alnum_exec(c);
    match k {
        Class::Hostname => a || c == '-',
        Class::Locale => a || c == '_' || c == '.' || c == '-',
        Class::Keymap => a || c == '-' || c == '_',
        Class::Timezone => a || c == '_' || c == '/',
    }
}

/// Every character of `s` is in the class `k`.
fn ascii_class_ok(s: &[char], k: Class) -> (b: bool)
    ensures
        b == forall|i: int| 0 <= i < s.len() ==> in_class(k, #[trigger] s@[i]),
{
    let mut i: usize = 0;
    while i < s.len()
        invariant
            i <= s.len(),
            forall|j: int| 0 <= j < i ==> in_class(k, #[trigger] s@[j]),
        decreases s.len() - i,
    {
        if !in_class_exec(&k, s[i]) {
            return false;
        }
        i = i + 1;
    }
    true
}

/// `s` neither starts nor ends with `sep`.
fn no_edge_separator(s: &[char], sep: char) -> (b: bool)
    requires
        s.len() > 0,
    ensures
        b == (s@[0] != sep && s@.last() != sep),
{
    s[0] != sep && s[s.len() - 1] != sep
}

/// True if `s` is a valid hostname for `/etc/hostname`.
pub fn is_valid_hostname(s: &str) -> (b: bool)
    ensures
        b == valid_hostname(s@),
{
    let v = chars_of(s);
    v.len() > 0 && v.len() <= 63 && no_edge_separator(v.as_slice(), '-') && ascii_class_ok(
        v.as_slice(),
        Class::Hostname,
    )
}

/// True if `s` looks like a reasonable locale (such as `es_MX.UTF-8`).
pub fn is_valid_locale(s: &str) -> (b: bool)
    ensures
        b == valid_locale(s@),
{
    let v = chars_of(s);
    v.len() > 0 && v.len() <= 60 && ascii_class_ok(v.as_slice(), Class::Locale)
}

/// True if `s` looks like a valid console keymap (such as `la-latin1`).
pub fn is_valid_keymap(s: &str) -> (b: bool)
    ensures
        b == valid_keymap(s@),
{
    let v = chars_of(s);
    v.len() > 0 && v.len() <= 50 && ascii_class_ok(v.as_slice(), Class::Keymap)
}

/// No two `/` in a row in `s`.
fn no_double_slash(s: &[char]) -> (b: bool)
    ensures
        b == forall|i: int| 0 <= i < s.len() - 1 ==> !(#[trigger] s@[i] == '/' && s@[i + 1] == '/'),
{
    let mut i: usize = 0;
    while i < s.len() && i + 1 < s.len()
        invariant
            forall|j: int| 0 <= j < i && j < s.len() - 1 ==> !(#[trigger] s@[j] == '/' && s@[j + 1]
                == '/'),
        decreases s.len() - i,
    {
        if s[i] == '/' && s[i + 1] == '/' {
            return false;
        }
        i = i + 1;
    }
    true
}

/// True if `s` looks like a valid IANA time zone (such as
/// `America/Mexico_City`).
pub fn is_valid_timezone(s: &str) -> (b: bool)
    ensures
        b == valid_timezone(s@),
{
    let v = chars_of(s);
    v.len() > 0 && v.len() <= 60 && no_edge_separator(v.as_slice(), '/') && no_double_slash(
        v.as_slice(),
    ) && ascii_class_ok(v.as_slice(), Class::Timezone)
}

} // verus!
