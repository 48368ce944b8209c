//! Checking a profile without installing anything: the system fields must
//! have a valid format and every package must exist in its source.

use vstd::prelude::*;

use crate::model::Profile;
use crate::text::{
    cat, has_prefix, lines, lines_seq, list_contains, list_has, oview, strip_prefix,
    strip_prefix_seq, string_of, trim, trim_chars, trim_seq, views, vviews,
};
use crate::validate::{
    is_valid_hostname, is_valid_keymap, is_valid_locale, is_valid_timezone, valid_hostname,
    valid_keymap, valid_locale, valid_timezone,
};

verus! {

/// Result of checking the format of one system field.
#[derive(Debug, Clone)]
pub struct FieldCheck {
    pub name: &'static str,
    pub value: String,
    pub ok: bool,
}

impl FieldCheck {
    fn ok(name: &'static str, value: &str) -> (c: FieldCheck)
        ensures
            c.name == name,
            c.value@ == value@,
            c.ok,
    {
        FieldCheck { name, value: String::from_str(value), ok: true }
    }

    fn bad(name: &'static str, value: &str) -> (c: FieldCheck)
        ensures
            c.name == name,
            c.value@ == value@,
            !c.ok,
    {
        FieldCheck { name, value: String::from_str(value), ok: false }
    }
}

/// Result of checking a whole profile.
#[derive(Debug, Clone)]
pub struct ValidateReport {
    pub profile_name: String,
    pub fields: Vec<FieldCheck>,
    pub missing_official: Vec<String>,
    pub missing_aur: Vec<String>,
    pub found_official: usize,
    pub found_aur: usize,
    pub api_errors: Vec<String>,
}

/// What the package lookups found: the names each source knows among the
/// profile's packages, or the error the lookup ended with.
pub struct PackageLookup {
    /// Names `pacman -Si` reported for the profile's official packages.
    pub official: Result<Vec<String>, String>,
    /// Names the AUR reported for the profile's AUR packages.
    pub aur: Result<Vec<String>, String>,
}

// ----------------------------------------------------------------------
// Specifications
// ----------------------------------------------------------------------

/// The data of a field check: name, value, verdict.
pub open spec fn check_view(c: FieldCheck) -> (Seq<char>, Seq<char>, bool) {
    (c.name@, c.value@, c.ok)
}

/// The check one optional field contributes.
pub open spec fn field_entry(
    value: Option<Seq<char>>,
    name: Seq<char>,
    valid: spec_fn(Seq<char>) -> bool,
) -> Seq<(Seq<char>, Seq<char>, bool)> {
    match value {
        Some(v) => seq![(name, v, valid(v))],
        None => Seq::empty(),
    }
}

/// The field checks of a profile: locale, time zone, keymap, hostname and
/// mirror region, for those that are present. A region is fine when it is not
/// blank.
pub open spec fn field_checks(p: Profile) -> Seq<(Seq<char>, Seq<char>, bool)> {
    field_entry(oview(p.locale), "locale"@, |v: Seq<char>| valid_locale(v)) + field_entry(
        oview(p.timezone),
        "timezone"@,
        |v: Seq<char>| valid_timezone(v),
    ) + field_entry(oview(p.keymap), "keymap"@, |v: Seq<char>| valid_keymap(v)) + field_entry(
        oview(p.hostname),
        "hostname"@,
        |v: Seq<char>| valid_hostname(v),
    ) + field_entry(
        oview(p.mirror_region),
        "mirror_region"@,
        |v: Seq<char>| trim_seq(v).len() > 0,
    )
}

/// The packages of `pkgs` that `found` does not hold, in order.
pub open spec fn missing_of(pkgs: Seq<String>, found: Seq<String>) -> Seq<Seq<char>>
    decreases pkgs.len(),
{
    if pkgs.len() == 0 {
        Seq::empty()
    } else {
        let p = missing_of(pkgs.drop_last(), found);
        if list_has(found, pkgs.last()@) {
            p
        } else {
            p.push(pkgs.last()@)
        }
    }
}

/// How many packages of `pkgs` `found` holds.
pub open spec fn found_count(pkgs: Seq<String>, found: Seq<String>) -> nat
    decreases pkgs.len(),
{
    if pkgs.len() == 0 {
        0
    } else {
        found_count(pkgs.drop_last(), found) + if list_has(found, pkgs.last()@) {
            1nat
        } else {
            0nat
        }
    }
}

/// The lookup result that applies to a list of packages: none when the
/// lookup was not made or the list is empty.
pub open spec fn applies(
    lookup: Option<Result<Vec<String>, String>>,
    pkgs: Seq<String>,
) -> Option<Result<Vec<String>, String>> {
    if pkgs.len() == 0 {
        None
    } else {
        lookup
    }
}

/// Missing packages of one source.
pub open spec fn missing_spec(
    lookup: Option<Result<Vec<String>, String>>,
    pkgs: Seq<String>,
) -> Seq<Seq<char>> {
    match applies(lookup, pkgs) {
        Some(Ok(found)) => missing_of(pkgs, found@),
        _ => Seq::empty(),
    }
}

/// Found packages of one source.
pub open spec fn found_spec(lookup: Option<Result<Vec<String>, String>>, pkgs: Seq<String>) -> nat {
    match applies(lookup, pkgs) {
        Some(Ok(found)) => found_count(pkgs, found@),
        _ => 0,
    }
}

/// Error message of one source, with its label.
pub open spec fn error_spec(
    lookup: Option<Result<Vec<String>, String>>,
    pkgs: Seq<String>,
    label: Seq<char>,
) -> Seq<Seq<char>> {
    match applies(lookup, pkgs) {
        Some(Err(e)) => seq![label + e@],
        _ => Seq::empty(),
    }
}

/// The official lookup, when lookups were made.
pub open spec fn official_lookup(l: Option<&PackageLookup>) -> Option<Result<Vec<String>, String>> {
    match l {
        Some(x) => Some(x.official),
        None => None,
    }
}

/// The AUR lookup, when lookups were made.
pub open spec fn aur_lookup(l: Option<&PackageLookup>) -> Option<Result<Vec<String>, String>> {
    match l {
        Some(x) => Some(x.aur),
        None => None,
    }
}

/// The package names in a `pacman -Si` output: the trimmed rest of each line
/// that starts with the `Name` prefix.
pub open spec fn si_names(ls: Seq<Seq<char>>) -> Seq<Seq<char>>
    decreases ls.len(),
{
    if ls.len() == 0 {
        Seq::empty()
    } else {
        let p = si_names(ls.drop_last());
        match strip_prefix_seq(ls.last(), "Name            : "@) {
            Some(rest) => p.push(trim_seq(rest)),
            None => p,
        }
    }
}

impl ValidateReport {
    /// The profile can be installed: every field has a valid format and no
    /// package is missing.
    pub open spec fn is_ok_spec(self) -> bool {
        &&& forall|i: int| 0 <= i < self.fields@.len() ==> (#[trigger] self.fields@[i]).ok
        &&& self.missing_official@.len() == 0
        &&& self.missing_aur@.len() == 0
    }

    /// `true` if the profile can be installed: every field has a valid format
    /// and no package is missing.
    pub fn is_ok(&self) -> (b: bool)
        ensures
            b == self.is_ok_spec(),
    {
        let mut i: usize = 0;
        while i < self.fields.len()
            invariant
                i <= self.fields.len(),
                forall|j: int| 0 <= j < i ==> (#[trigger] self.fields@[j]).ok,
            decreases self.fields.len() - i,
        {
            if !self.fields[i].ok {
                return false;
            }
            i = i + 1;
        }
        self.missing_official.len() == 0 && self.missing_aur.len() == 0
    }
}

// ----------------------------------------------------------------------
// Functions
// ----------------------------------------------------------------------

fn push_field(
    fields: &mut Vec<FieldCheck>,
    value: &Option<String>,
    name: &'static str,
    valid: bool,
    Ghost(pred): Ghost<spec_fn(Seq<char>) -> bool>,
)
    requires
        value matches Some(v) ==> valid == pred(v@),
    ensures
        final(fields)@.map_values(|c: FieldCheck| check_view(c)) == old(fields)@.map_values(
            |c: FieldCheck| check_view(c),
        ) + field_entry(oview(*value), name@, pred),
{
    let ghost before = fields@;
    match value {
        Some(v) => {
            let c = if valid {
                FieldCheck::ok(name, v.as_str())
            } else {
                FieldCheck::bad(name, v.as_str())
            };
            fields.push(c);
        },
        None => {},
    }
    assert(fields@.map_values(|c: FieldCheck| check_view(c)) =~= before.map_values(
        |c: FieldCheck| check_view(c),
    ) + field_entry(oview(*value), name@, pred));
}

fn opt_valid(value: &Option<String>, f: u8) -> (b: bool)
    ensures
        value matches Some(v) ==> b == (if f == 0 {
            valid_locale(v@)
        } else if f == 1 {
            valid_timezone(v@)
        } else if f == 2 {
            valid_keymap(v@)
        } else if f == 3 {
            valid_hostname(v@)
        } else {
            trim_seq(v@).len() > 0
        }),
{
    match value {
        Some(v) => if f == 0 {
            is_valid_locale(v.as_str())
        } else if f == 1 {
            is_valid_timezone(v.as_str())
        } else if f == 2 {
            is_valid_keymap(v.as_str())
        } else if f == 3 {
            is_valid_hostname(v.as_str())
        } else {
            !trim(v.as_str()).as_str().is_empty()
        },
        None => false,
    }
}

/// Missing and found packages of `pkgs` against the names a lookup found.
fn sort_packages(pkgs: &Vec<String>, found: &Vec<String>) -> (r: (Vec<String>, usize))
    ensures
        views(r.0@) == missing_of(pkgs@, found@),
        r.1 == found_count(pkgs@, found@),
{
    let mut missing: Vec<String> = Vec::new();
    let mut count: usize = 0;
    let mut i: usize = 0;
    while i < pkgs.len()
        invariant
            i <= pkgs.len(),
            views(missing@) == missing_of(pkgs@.take(i as int), found@),
            count == found_count(pkgs@.take(i as int), found@),
            count <= i,
        decreases pkgs.len() - i,
    {
        proof {
            assert(pkgs@.take(i + 1).drop_last() =~= pkgs@.take(i as int));
        }
        let ghost before = missing@;
        if list_contains(found.as_slice(), pkgs[i].as_str()) {
            count = count + 1;
        } else {
            missing.push(pkgs[i].clone());
            assert(views(missing@) =~= views(before).push(pkgs@[i as int]@));
        }
        i = i + 1;
    }
    assert(pkgs@.take(pkgs@.len() as int) =~= pkgs@);
    (missing, count)
}

/// Checks one source: missing packages, found count, and the error message.
fn check_source(
    lookup: Option<&Result<Vec<String>, String>>,
    pkgs: &Vec<String>,
    label: &str,
) -> (r: (Vec<String>, usize, Vec<String>))
    ensures
        views(r.0@) == missing_spec(
            match lookup {
                Some(l) => Some(*l),
                None => None,
            },
            pkgs@,
        ),
        r.1 == found_spec(
            match lookup {
                Some(l) => Some(*l),
                None => None,
            },
            pkgs@,
        ),
        views(r.2@) == error_spec(
            match lookup {
                Some(l) => Some(*l),
                None => None,
            },
            pkgs@,
            label@,
        ),
{
    let mut errors: Vec<String> = Vec::new();
    if pkgs.len() == 0 {
        assert(views(errors@) =~= Seq::<Seq<char>>::empty());
        return (Vec::new(), 0, errors);
    }
    match lookup {
        None => {
            assert(views(errors@) =~= Seq::<Seq<char>>::empty());
            (Vec::new(), 0, errors)
        },
        Some(Ok(found)) => {
            let (m, c) = sort_packages(pkgs, found);
            assert(views(errors@) =~= Seq::<Seq<char>>::empty());
            (m, c, errors)
        },
        Some(Err(e)) => {
            errors.push(cat(label, e.as_str()));
            assert(views(errors@) =~= seq![label@ + e@]);
            (Vec::new(), 0, errors)
        },
    }
}

/// Checks a profile without installing anything. The formats of the system
/// fields are always checked; the packages only when `lookup` holds what the
/// package sources answered (without it, nothing goes over the network).
pub fn validate(profile: &Profile, lookup: Option<&PackageLookup>) -> (r: ValidateReport)
    ensures
        r.profile_name@ == profile.name@,
        r.fields@.map_values(|c: FieldCheck| check_view(c)) == field_checks(*profile),
        views(r.missing_official@) == missing_spec(
            official_lookup(lookup),
            profile.official_packages@,
        ),
        r.found_official == found_spec(official_lookup(lookup), profile.official_packages@),
        views(r.missing_aur@) == missing_spec(aur_lookup(lookup), profile.aur_packages@),
        r.found_aur == found_spec(aur_lookup(lookup), profile.aur_packages@),
        views(r.api_errors@) == error_spec(
            official_lookup(lookup),
            profile.official_packages@,
            "oficiales: "@,
        ) + error_spec(aur_lookup(lookup), profile.aur_packages@, "AUR: "@),
{
    let mut fields: Vec<FieldCheck> = Vec::new();
    assert(fields@.map_values(|c: FieldCheck| check_view(c)) =~= Seq::empty());
    let v = opt_valid(&profile.locale, 0);
    push_field(&mut fields, &profile.locale, "locale", v, Ghost(|v: Seq<char>| valid_locale(v)));
    let v = opt_valid(&profile.timezone, 1);
    push_field(
        &mut fields,
        &profile.timezone,
        "timezone",
        v,
        Ghost(|v: Seq<char>| valid_timezone(v)),
    );
    let v = opt_valid(&profile.keymap, 2);
    push_field(&mut fields, &profile.keymap, "keymap", v, Ghost(|v: Seq<char>| valid_keymap(v)));
    let v = opt_valid(&profile.hostname, 3);
    push_field(
        &mut fields,
        &profile.hostname,
        "hostname",
        v,
        Ghost(|v: Seq<char>| valid_hostname(v)),
    );
    let v = opt_valid(&profile.mirror_region, 4);
    push_field(
        &mut fields,
        &profile.mirror_region,
        "mirror_region",
        v,
        Ghost(|v: Seq<char>| trim_seq(v).len() > 0),
    );
    let (off_lookup, aur_lookup_r) = match lookup {
        Some(l) => (Some(&l.official), Some(&l.aur)),
        None => (None, None),
    };
    let (missing_official, found_official, mut api_errors) = check_source(
        off_lookup,
        &profile.official_packages,
        "oficiales: ",
    );
    let (missing_aur, found_aur, aur_errors) = check_source(
        aur_lookup_r,
        &profile.aur_packages,
        "AUR: ",
    );
    let ghost e1 = api_errors@;
    let mut i: usize = 0;
    while i < aur_errors.len()
        invariant
            i <= aur_errors.len(),
            views(api_errors@) == views(e1) + views(aur_errors@.take(i as int)),
        decreases aur_errors.len() - i,
    {
        let ghost before = api_errors@;
        api_errors.push(aur_errors[i].clone());
        proof {
            assert(views(api_errors@) =~= views(before).push(aur_errors@[i as int]@));
            assert(views(aur_errors@.take(i + 1)) =~= views(aur_errors@.take(i as int)).push(
                aur_errors@[i as int]@,
            ));
            assert(views(api_errors@) =~= views(e1) + views(aur_errors@.take(i + 1)));
        }
        i = i + 1;
    }
    assert(aur_errors@.take(aur_errors@.len() as int) =~= aur_errors@);
    ValidateReport {
        profile_name: profile.name.clone(),
        fields,
        missing_official,
        missing_aur,
        found_official,
        found_aur,
        api_errors,
    }
}

/// The package names in a `pacman -Si` output (lines starting with the `Name`
/// prefix, trimmed).
pub fn names_in_si_output(stdout: &str) -> (r: Vec<String>)
    ensures
        views(r@) == si_names(lines_seq(stdout@)),
{
    let ls = lines(stdout);
    let mut r: Vec<String> = Vec::new();
    let mut i: usize = 0;
    while i < ls.len()
        invariant
            i <= ls.len(),
            vviews(ls@) == lines_seq(stdout@),
            views(r@) == si_names(vviews(ls@).take(i as int)),
        decreases ls.len() - i,
    {
        proof {
            assert(vviews(ls@).take(i + 1).drop_last() =~= vviews(ls@).take(i as int));
            assert(vviews(ls@)[i as int] == ls@[i as int]@);
        }
        let ghost before = r@;
        match strip_prefix(ls[i].as_slice(), "Name            : ") {
            Some(rest) => {
                let t = trim_chars(rest.as_slice());
                r.push(string_of(t.as_slice()));
                assert(views(r@) =~= views(before).push(t@));
            },
            None => {},
        }
        i = i + 1;
    }
    assert(vviews(ls@).take(ls@.len() as int) =~= vviews(ls@));
    r
}

} // verus!
