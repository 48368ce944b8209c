//! State of the running system: installed packages, enabled services, boot
//! loader and the current locale, time zone, keymap and hostname.
//!
//! The probes themselves (running `pacman`, `systemctl`, reading files) happen
//! outside the library; this module turns what they reported into a
//! `SystemStatus`. A failed probe never aborts: it just leaves its part empty.

use vstd::prelude::*;

use crate::model::Source;
use crate::order::{dedup_texts, sort_dedup_strings, sort_texts};
use crate::text::{
    chars_of, cat, contains_chars, eq_ascii_nocase, eq_ignore_ascii_case, first_words,
    first_words_of_lines, has_char, has_prefix, lines, lines_seq, list_contains, list_has,
    nonblank_lines, nonblank_lines_of, oview, slice_range, starts_with, strip_prefix,
    strip_prefix_seq, string_of, trim, trim_char, trim_char_seq, trim_chars, trim_seq, views,
    vviews, without, without_list,
};

verus! {

/// Boot loader found on the system.
#[derive(Debug, Clone, Copy, PartialEq, Eq, Structural)]
pub enum Bootloader {
    Grub,
    SystemdBoot,
    Unknown,
}

/// Result of looking up one package.
#[derive(Debug, Clone, Copy, PartialEq, Eq, Structural)]
pub enum PackageStatus {
    /// pacman reports it.
    Installed,
    /// pacman does not report it.
    NotInstalled,
    /// pacman was not available; nothing is known.
    Unknown,
}

/// Result of looking up one service.
#[derive(Debug, Clone, Copy, PartialEq, Eq, Structural)]
pub enum ServiceStatus {
    /// The unit is enabled.
    Enabled,
    /// The unit is not among the enabled ones.
    Disabled,
    /// The unit does not exist.
    NotInstalled,
    /// systemctl was not available.
    Unknown,
}

/// What the system probes reported. Each command output is present only when
/// the command ran and succeeded; each file body only when it could be read.
pub struct SystemProbe {
    /// Output of `pacman -Qq` (all installed packages).
    pub installed: Option<String>,
    /// Output of `pacman -Qqm` (packages not from the official repositories).
    pub foreign: Option<String>,
    /// Output of `pacman -Qu` (packages with an update available).
    pub upgradable: Option<String>,
    /// Output of `systemctl list-unit-files --state=enabled --no-legend --plain`.
    pub enabled_units: Option<String>,
    /// `/boot/grub/grub.cfg` exists.
    pub grub_cfg: bool,
    /// `/etc/default/grub` exists.
    pub default_grub: bool,
    /// `/boot/loader/entries` exists.
    pub boot_loader_entries: bool,
    /// `/efi/loader/entries` exists.
    pub efi_loader_entries: bool,
    /// Body of `/etc/pacman.conf`.
    pub pacman_conf: Option<String>,
    /// Body of `/etc/locale.conf`.
    pub locale_conf: Option<String>,
    /// Target of `/etc/localtime` relative to `/usr/share/zoneinfo`.
    pub zoneinfo_target: Option<String>,
    /// Body of `/etc/vconsole.conf`.
    pub vconsole_conf: Option<String>,
    /// Body of `/etc/hostname`.
    pub hostname_file: Option<String>,
}

/// Detected state of the system. Every field is empty or `None` when its
/// probe failed.
#[derive(Debug, Clone)]
pub struct SystemStatus {
    /// Installed official packages.
    pub official: Vec<String>,
    /// Installed AUR (foreign) packages.
    pub aur: Vec<String>,
    /// Enabled systemd units.
    pub enabled_services: Vec<String>,
    /// Packages with an update available.
    pub updates_available: Vec<String>,
    /// Detected boot loader.
    pub bootloader: Bootloader,
    /// The `[multilib]` block of pacman.conf is active.
    pub multilib_enabled: bool,
    /// `LANG` of `/etc/locale.conf`.
    pub locale: Option<String>,
    /// Time zone behind `/etc/localtime`.
    pub timezone: Option<String>,
    /// `KEYMAP` of `/etc/vconsole.conf`.
    pub keymap: Option<String>,
    /// Contents of `/etc/hostname`.
    pub hostname: Option<String>,
}

// ----------------------------------------------------------------------
// Specifications
// ----------------------------------------------------------------------

/// The boot loader the existing paths point to: GRUB first, then systemd-boot.
pub open spec fn bootloader_of(
    grub_cfg: bool,
    default_grub: bool,
    boot_entries: bool,
    efi_entries: bool,
) -> Bootloader {
    if grub_cfg || default_grub {
        Bootloader::Grub
    } else if boot_entries || efi_entries {
        Bootloader::SystemdBoot
    } else {
        Bootloader::Unknown
    }
}

/// Which boot loader the paths point to: GRUB whenever one of its files
/// exists; otherwise systemd-boot whenever `/boot/loader/entries` or
/// `/efi/loader/entries` exists, either one alone; otherwise unknown.
pub proof fn lemma_bootloader_detection(
    grub_cfg: bool,
    default_grub: bool,
    boot_entries: bool,
    efi_entries: bool,
)
    ensures
        grub_cfg ==> bootloader_of(grub_cfg, default_grub, boot_entries, efi_entries) is Grub,
        default_grub ==> bootloader_of(grub_cfg, default_grub, boot_entries, efi_entries) is Grub,
        !grub_cfg && !default_grub && boot_entries ==> bootloader_of(
            grub_cfg,
            default_grub,
            boot_entries,
            efi_entries,
        ) is SystemdBoot,
        !grub_cfg && !default_grub && efi_entries ==> bootloader_of(
            grub_cfg,
            default_grub,
            boot_entries,
            efi_entries,
        ) is SystemdBoot,
        !grub_cfg && !default_grub && !boot_entries && !efi_entries ==> bootloader_of(
            grub_cfg,
            default_grub,
            boot_entries,
            efi_entries,
        ) is Unknown,
{
}

/// Scanning pacman.conf: whether the current section is `[multilib]`, and
/// whether an `Include` line was seen inside it.
pub open spec fn multilib_scan(ls: Seq<Seq<char>>) -> (bool, bool)
    decreases ls.len(),
{
    if ls.len() == 0 {
        (false, false)
    } else {
        let (in_block, found) = multilib_scan(ls.drop_last());
        let t = trim_seq(ls.last());
        if found {
            (in_block, true)
        } else if t.len() == 0 || t[0] == '#' {
            (in_block, false)
        } else if t[0] == '[' {
            (eq_ascii_nocase(t, "[multilib]"@), false)
        } else {
            (in_block, in_block && has_prefix(t, "Include"@))
        }
    }
}

/// The `[multilib]` block of a pacman.conf body is active (not commented out).
pub open spec fn multilib_in(body: Seq<char>) -> bool {
    multilib_scan(lines_seq(body)).1
}

/// The value of a `KEY=value` setting line: trimmed, then stripped of
/// surrounding double and then single quotes.
pub open spec fn setting_value(rest: Seq<char>) -> Seq<char> {
    trim_char_seq(trim_char_seq(trim_seq(rest), '"'), '\'')
}

/// The value a line gives to `key`, when it is an acceptable one.
pub open spec fn line_setting(line: Seq<char>, key: Seq<char>, reject_c: bool) -> Option<Seq<char>> {
    match strip_prefix_seq(trim_seq(line), key) {
        Some(rest) => {
            let v = setting_value(rest);
            if v.len() == 0 || (reject_c && v == "C"@) {
                None
            } else {
                Some(v)
            }
        },
        None => None,
    }
}

/// The first acceptable value of `key` among the lines `ls`.
pub open spec fn first_setting(ls: Seq<Seq<char>>, key: Seq<char>, reject_c: bool) -> Option<
    Seq<char>,
>
    decreases ls.len(),
{
    if ls.len() == 0 {
        None
    } else {
        match first_setting(ls.drop_last(), key, reject_c) {
            Some(v) => Some(v),
            None => line_setting(ls.last(), key, reject_c),
        }
    }
}

/// `LANG` of a locale.conf body; `C` and blank values do not count.
pub open spec fn locale_in(body: Seq<char>) -> Option<Seq<char>> {
    first_setting(lines_seq(body), "LANG="@, true)
}

/// `KEYMAP` of a vconsole.conf body; blank values do not count.
pub open spec fn keymap_in(body: Seq<char>) -> Option<Seq<char>> {
    first_setting(lines_seq(body), "KEYMAP="@, false)
}

/// The hostname of an `/etc/hostname` body: trimmed, `None` when blank.
pub open spec fn hostname_in(body: Seq<char>) -> Option<Seq<char>> {
    if trim_seq(body).len() == 0 {
        None
    } else {
        Some(trim_seq(body))
    }
}

/// `Some(s)` unless `s` is empty.
pub open spec fn nonempty_raw(s: Seq<char>) -> Option<Seq<char>> {
    if s.len() == 0 {
        None
    } else {
        Some(s)
    }
}

/// An optional probe result passed through a parser.
pub open spec fn parsed(o: Option<String>, f: spec_fn(Seq<char>) -> Option<Seq<char>>) -> Option<
    Seq<char>,
> {
    match o {
        Some(b) => f(b@),
        None => None,
    }
}

/// Installed foreign (AUR) packages: known only when both pacman queries ran.
pub open spec fn aur_of(p: SystemProbe) -> Seq<Seq<char>> {
    match (p.installed, p.foreign) {
        (Some(_), Some(f)) => nonblank_lines(f@),
        _ => Seq::empty(),
    }
}

/// Installed official packages: all installed ones except the foreign ones.
pub open spec fn official_of(p: SystemProbe) -> Seq<Seq<char>> {
    match p.installed {
        Some(q) => without(nonblank_lines(q@), aur_of(p)),
        None => Seq::empty(),
    }
}

/// The first words of the lines of an optional command output.
pub open spec fn first_words_of(o: Option<String>) -> Seq<Seq<char>> {
    match o {
        Some(b) => first_words(lines_seq(b@)),
        None => Seq::empty(),
    }
}

/// The unit name tried with a suffix: `name` itself when it has a `.`,
/// `name.service` otherwise.
pub open spec fn with_service_suffix(name: Seq<char>) -> Seq<char> {
    if name.contains('.') {
        name
    } else {
        name + ".service"@
    }
}

/// The unit name tried without suffix: `name` without a trailing `.service`.
pub open spec fn without_service_suffix(name: Seq<char>) -> Seq<char> {
    if name.len() >= 8 && name.skip(name.len() - 8) == ".service"@ {
        name.take(name.len() - 8)
    } else {
        name
    }
}

impl SystemStatus {
    /// The installed packages of one source.
    pub open spec fn installed_of(self, src: Source) -> Seq<String> {
        match src {
            Source::Official => self.official@,
            Source::Aur => self.aur@,
        }
    }

    /// What `package_status` answers.
    pub open spec fn package_status_spec(self, name: Seq<char>, src: Source) -> PackageStatus {
        if list_has(self.installed_of(src), name) {
            PackageStatus::Installed
        } else if self.official@.len() == 0 && self.aur@.len() == 0 {
            PackageStatus::Unknown
        } else {
            PackageStatus::NotInstalled
        }
    }

    /// What `service_status` answers.
    pub open spec fn service_status_spec(self, name: Seq<char>) -> ServiceStatus {
        if self.enabled_services@.len() == 0 {
            ServiceStatus::Unknown
        } else if list_has(self.enabled_services@, with_service_suffix(name)) || list_has(
            self.enabled_services@,
            without_service_suffix(name),
        ) {
            ServiceStatus::Enabled
        } else {
            ServiceStatus::Disabled
        }
    }
}

// ----------------------------------------------------------------------
// Parsers
// ----------------------------------------------------------------------

/// The boot loader the existing paths point to.
pub fn detect_bootloader(
    grub_cfg: bool,
    default_grub: bool,
    boot_entries: bool,
    efi_entries: bool,
) -> (b: Bootloader)
    ensures
        b == bootloader_of(grub_cfg, default_grub, boot_entries, efi_entries),
        (b is Grub) <==> (grub_cfg || default_grub),
        !grub_cfg && !default_grub && (boot_entries || efi_entries) ==> b is SystemdBoot,
        (b is Unknown) <==> !(grub_cfg || default_grub || boot_entries || efi_entries),
{
    if grub_cfg || default_grub {
        Bootloader::Grub
    } else if boot_entries || efi_entries {
        Bootloader::SystemdBoot
    } else {
        Bootloader::Unknown
    }
}

/// True if the `[multilib]` block of a pacman.conf body is active: a
/// `[multilib]` header (any ASCII case) followed, before the next section, by
/// an `Include` line that is not commented out.
pub fn multilib_enabled_in(body: &str) -> (b: bool)
    ensures
        b == multilib_in(body@),
{
    let ls = lines(body);
    let mut in_block = false;
    let mut i: usize = 0;
    while i < ls.len()
        invariant
            i <= ls.len(),
            vviews(ls@) == lines_seq(body@),
            multilib_scan(vviews(ls@).take(i as int)) == (in_block, false),
        decreases ls.len() - i,
    {
        proof {
            assert(vviews(ls@).take(i + 1).drop_last() =~= vviews(ls@).take(i as int));
        }
        let t = trim_chars(ls[i].as_slice());
        if t.len() == 0 || t[0] == '#' {
        } else if t[0] == '[' {
            in_block = eq_ignore_ascii_case(t.as_slice(), "[multilib]");
        } else {
            let inc = chars_of("Include");
            if in_block && starts_with(t.as_slice(), inc.as_slice()) {
                proof {
                    lemma_multilib_found_stays(vviews(ls@), i as int + 1);
                    assert(vviews(ls@).take(ls@.len() as int) =~= vviews(ls@));
                }
                return true;
            }
        }
        i = i + 1;
    }
    assert(vviews(ls@).take(ls@.len() as int) =~= vviews(ls@));
    false
}

proof fn lemma_multilib_found_stays(ls: Seq<Seq<char>>, k: int)
    requires
        0 <= k <= ls.len(),
        multilib_scan(ls.take(k)).1,
    ensures
        multilib_scan(ls).1,
    decreases ls.len() - k,
{
    if k < ls.len() {
        assert(ls.take(k + 1).drop_last() =~= ls.take(k));
        lemma_multilib_found_stays(ls, k + 1);
    } else {
        assert(ls.take(k) =~= ls);
    }
}

/// The value a line gives to `key`.
fn line_setting_exec(line: &[char], key: &str, reject_c: bool) -> (r: Option<String>)
    ensures
        oview(r) == line_setting(line@, key@, reject_c),
{
    let t = trim_chars(line);
    match strip_prefix(t.as_slice(), key) {
        None => None,
        Some(rest) => {
            let a = trim_chars(rest.as_slice());
            let b = trim_char(a.as_slice(), '"');
            let v = trim_char(b.as_slice(), '\'');
            let is_c = v.len() == 1 && v[0] == 'C';
            proof {
                reveal_strlit("C");
                if v@.len() == 1 && v@[0] == 'C' {
                    assert(v@ =~= "C"@);
                }
            }
            if v.len() == 0 || (reject_c && is_c) {
                None
            } else {
                Some(string_of(v.as_slice()))
            }
        },
    }
}

/// The first acceptable value of `key` among the lines of `body`.
fn first_setting_exec(body: &str, key: &str, reject_c: bool) -> (r: Option<String>)
    ensures
        oview(r) == first_setting(lines_seq(body@), key@, reject_c),
{
    let ls = lines(body);
    let mut i: usize = 0;
    while i < ls.len()
        invariant
            i <= ls.len(),
            vviews(ls@) == lines_seq(body@),
            first_setting(vviews(ls@).take(i as int), key@, reject_c) is None,
        decreases ls.len() - i,
    {
        proof {
            assert(vviews(ls@).take(i + 1).drop_last() =~= vviews(ls@).take(i as int));
        }
        let v = line_setting_exec(ls[i].as_slice(), key, reject_c);
        if v.is_some() {
            proof {
                lemma_first_setting_stays(vviews(ls@), key@, reject_c, i as int + 1);
            }
            return v;
        }
        i = i + 1;
    }
    assert(vviews(ls@).take(ls@.len() as int) =~= vviews(ls@));
    None
}

proof fn lemma_first_setting_stays(ls: Seq<Seq<char>>, key: Seq<char>, reject_c: bool, k: int)
    requires
        0 <= k <= ls.len(),
    ensures
        first_setting(ls.take(k), key, reject_c) is Some ==> first_setting(ls, key, reject_c)
            == first_setting(ls.take(k), key, reject_c),
    decreases ls.len() - k,
{
    if k < ls.len() {
        assert(ls.take(k + 1).drop_last() =~= ls.take(k));
        lemma_first_setting_stays(ls, key, reject_c, k + 1);
    } else {
        assert(ls.take(k) =~= ls);
    }
}

/// `LANG` of a locale.conf body, unless it is blank or `C`.
pub fn parse_locale_from(body: &str) -> (r: Option<String>)
    ensures
        oview(r) == locale_in(body@),
{
    first_setting_exec(body, "LANG=", true)
}

/// `KEYMAP` of a vconsole.conf body, unless it is blank.
pub fn parse_keymap_from(body: &str) -> (r: Option<String>)
    ensures
        oview(r) == keymap_in(body@),
{
    first_setting_exec(body, "KEYMAP=", false)
}

/// The hostname in an `/etc/hostname` body: trimmed, `None` when blank.
pub fn parse_hostname_from(body: &str) -> (r: Option<String>)
    ensures
        oview(r) == hostname_in(body@),
{
    let v = trim(body);
    if v.as_str().is_empty() {
        None
    } else {
        Some(v)
    }
}

/// No text occurs twice.
pub open spec fn no_repeats(s: Seq<Seq<char>>) -> bool {
    forall|i: int, j: int| 0 <= i < j < s.len() ==> s[i] != s[j]
}

impl SystemStatus {
    /// The detected lists behave as sets: each name occurs once, no package
    /// name is blank, and no package is both official and foreign.
    pub open spec fn consistent(self) -> bool {
        &&& no_repeats(views(self.official@))
        &&& no_repeats(views(self.aur@))
        &&& no_repeats(views(self.enabled_services@))
        &&& no_repeats(views(self.updates_available@))
        &&& forall|x: Seq<char>| #[trigger] views(self.official@).contains(x) ==> !views(
            self.aur@,
        ).contains(x) && x.len() > 0
        &&& forall|x: Seq<char>| #[trigger] views(self.aur@).contains(x) ==> x.len() > 0
    }
}

/// The installed packages as the probes report them: the foreign ones are
/// the non-blank lines of `pacman -Qqm`, the official ones those of
/// `pacman -Qq` that are not foreign (none when `pacman -Qq` failed), each
/// kept once; so no package is both, and no name is blank.
pub proof fn lemma_detected_sets(probe: SystemProbe)
    ensures
        no_repeats(dedup_texts(sort_texts(aur_of(probe)))),
        no_repeats(dedup_texts(sort_texts(official_of(probe)))),
        no_repeats(dedup_texts(sort_texts(first_words_of(probe.upgradable)))),
        no_repeats(dedup_texts(sort_texts(first_words_of(probe.enabled_units)))),
        forall|x: Seq<char>|
            #[trigger] dedup_texts(sort_texts(aur_of(probe))).contains(x) <==> aur_of(probe).contains(x),
        forall|x: Seq<char>|
            #[trigger] dedup_texts(sort_texts(official_of(probe))).contains(x) <==> (
            probe.installed matches Some(q) && nonblank_lines(q@).contains(x) && !aur_of(
                probe,
            ).contains(x)),
        forall|x: Seq<char>|
            #[trigger] dedup_texts(sort_texts(official_of(probe))).contains(x) ==> x.len() > 0
                && !dedup_texts(sort_texts(aur_of(probe))).contains(x),
        forall|x: Seq<char>| #[trigger] dedup_texts(sort_texts(aur_of(probe))).contains(x) ==> x.len() > 0,
{
    crate::order::lemma_sort_dedup_set(aur_of(probe));
    crate::order::lemma_sort_dedup_set(official_of(probe));
    crate::order::lemma_sort_dedup_set(first_words_of(probe.upgradable));
    crate::order::lemma_sort_dedup_set(first_words_of(probe.enabled_units));
    match (probe.installed, probe.foreign) {
        (Some(_), Some(f)) => crate::text::lemma_nonblank_nonempty(crate::text::lines_seq(f@)),
        _ => {},
    }
    match probe.installed {
        Some(q) => {
            crate::text::lemma_without_contains(nonblank_lines(q@), aur_of(probe));
            crate::text::lemma_nonblank_nonempty(crate::text::lines_seq(q@));
        },
        None => {},
    }
    let d_off = dedup_texts(sort_texts(official_of(probe)));
    let d_aur = dedup_texts(sort_texts(aur_of(probe)));
    assert forall|x: Seq<char>| #[trigger] d_aur.contains(x) implies x.len() > 0 by {
        assert(aur_of(probe).contains(x));
    }
    assert forall|x: Seq<char>| #[trigger] d_off.contains(x) implies x.len() > 0 && !d_aur.contains(
        x,
    ) by {
        assert(official_of(probe).contains(x));
        let q = probe.installed->0;
        assert(nonblank_lines(q@).contains(x));
        assert(!aur_of(probe).contains(x));
    }
}

impl SystemStatus {
    /// An empty status: nothing detected.
    pub fn empty() -> (s: SystemStatus)
        ensures
            s.official@.len() == 0,
            s.aur@.len() == 0,
            s.enabled_services@.len() == 0,
            s.updates_available@.len() == 0,
            s.bootloader == Bootloader::Unknown,
            !s.multilib_enabled,
            s.locale is None,
            s.timezone is None,
            s.keymap is None,
            s.hostname is None,
            s.consistent(),
    {
        SystemStatus {
            official: Vec::new(),
            aur: Vec::new(),
            enabled_services: Vec::new(),
            updates_available: Vec::new(),
            bootloader: Bootloader::Unknown,
            multilib_enabled: false,
            locale: None,
            timezone: None,
            keymap: None,
            hostname: None,
        }
    }

    /// Builds the status from what the probes reported. Each part is
    /// independent: a failed probe leaves only its own part empty.
    pub fn detect(probe: &SystemProbe) -> (s: SystemStatus)
        ensures
            views(s.aur@) == dedup_texts(sort_texts(aur_of(*probe))),
            views(s.official@) == dedup_texts(sort_texts(official_of(*probe))),
            views(s.updates_available@) == dedup_texts(sort_texts(first_words_of(probe.upgradable))),
            views(s.enabled_services@) == dedup_texts(
                sort_texts(first_words_of(probe.enabled_units)),
            ),
            s.consistent(),
            forall|x: Seq<char>| #[trigger] views(s.aur@).contains(x) <==> aur_of(*probe).contains(x),
            forall|x: Seq<char>|
                #[trigger] views(s.official@).contains(x) <==> (probe.installed matches Some(q)
                    && nonblank_lines(q@).contains(x) && !aur_of(*probe).contains(x)),
            s.bootloader == bootloader_of(
                probe.grub_cfg,
                probe.default_grub,
                probe.boot_loader_entries,
                probe.efi_loader_entries,
            ),
            s.multilib_enabled == (match probe.pacman_conf {
                Some(b) => multilib_in(b@),
                None => false,
            }),
            oview(s.locale) == parsed(probe.locale_conf, |b: Seq<char>| locale_in(b)),
            oview(s.timezone) == parsed(probe.zoneinfo_target, |b: Seq<char>| nonempty_raw(b)),
            oview(s.keymap) == parsed(probe.vconsole_conf, |b: Seq<char>| keymap_in(b)),
            oview(s.hostname) == parsed(probe.hostname_file, |b: Seq<char>| hostname_in(b)),
    {
        let mut aur: Vec<String> = Vec::new();
        let mut official: Vec<String> = Vec::new();
        match &probe.installed {
            Some(q) => {
                let all = nonblank_lines_of(q.as_str());
                match &probe.foreign {
                    Some(f) => {
                        aur = nonblank_lines_of(f.as_str());
                    },
                    None => {},
                }
                official = without_list(&all, &aur);
            },
            None => {},
        }
        let updates_available = match &probe.upgradable {
            Some(o) => first_words_of_lines(o.as_str()),
            None => Vec::new(),
        };
        let enabled_services = match &probe.enabled_units {
            Some(o) => first_words_of_lines(o.as_str()),
            None => Vec::new(),
        };
        let multilib_enabled = match &probe.pacman_conf {
            Some(b) => multilib_enabled_in(b.as_str()),
            None => false,
        };
        let locale = match &probe.locale_conf {
            Some(b) => parse_locale_from(b.as_str()),
            None => None,
        };
        let timezone = match &probe.zoneinfo_target {
            Some(b) => if b.as_str().is_empty() {
                None
            } else {
                Some(b.clone())
            },
            None => None,
        };
        let keymap = match &probe.vconsole_conf {
            Some(b) => parse_keymap_from(b.as_str()),
            None => None,
        };
        let hostname = match &probe.hostname_file {
            Some(b) => parse_hostname_from(b.as_str()),
            None => None,
        };
        proof {
            if probe.installed is Some && probe.foreign is None {
                assert(views(aur@) =~= aur_of(*probe));
            }
            if probe.installed is None {
                assert(views(aur@) =~= aur_of(*probe));
                assert(views(official@) =~= official_of(*probe));
            }
            if probe.upgradable is None {
                assert(views(updates_available@) =~= first_words_of(probe.upgradable));
            }
            if probe.enabled_units is None {
                assert(views(enabled_services@) =~= first_words_of(probe.enabled_units));
            }
        }
        let official = sort_dedup_strings(&official);
        let aur = sort_dedup_strings(&aur);
        let enabled_services = sort_dedup_strings(&enabled_services);
        let updates_available = sort_dedup_strings(&updates_available);
        proof {
            lemma_detected_sets(*probe);
        }
        SystemStatus {
            official,
            aur,
            enabled_services,
            updates_available,
            bootloader: detect_bootloader(
                probe.grub_cfg,
                probe.default_grub,
                probe.boot_loader_entries,
                probe.efi_loader_entries,
            ),
            multilib_enabled,
            locale,
            timezone,
            keymap,
            hostname,
        }
    }

    /// Whether package `name` is installed from source `src`; `Unknown` when
    /// nothing at all was detected (pacman did not answer).
    pub fn package_status(&self, name: &str, src: Source) -> (r: PackageStatus)
        ensures
            r == self.package_status_spec(name@, src),
    {
        let set = match src {
            Source::Official => &self.official,
            Source::Aur => &self.aur,
        };
        if list_contains(set.as_slice(), name) {
            PackageStatus::Installed
        } else if self.official.len() == 0 && self.aur.len() == 0 {
            PackageStatus::Unknown
        } else {
            PackageStatus::NotInstalled
        }
    }

    /// State of a service, looked up with and without the `.service` suffix;
    /// `Unknown` when no enabled unit was detected at all.
    pub fn service_status(&self, name: &str) -> (r: ServiceStatus)
        ensures
            r == self.service_status_spec(name@),
    {
        if self.enabled_services.len() == 0 {
            return ServiceStatus::Unknown;
        }
        let v = chars_of(name);
        let with_suffix = if has_char(v.as_slice(), '.') {
            string_of(v.as_slice())
        } else {
            cat(name, ".service")
        };
        let suffix = chars_of(".service");
        proof {
            reveal_strlit(".service");
        }
        let base = if v.len() >= 8 && crate::text::ends_with(v.as_slice(), suffix.as_slice()) {
            let b = slice_range(v.as_slice(), 0, v.len() - 8);
            assert(b@ =~= v@.take(v@.len() - 8));
            string_of(b.as_slice())
        } else {
            string_of(v.as_slice())
        };
        if list_contains(self.enabled_services.as_slice(), with_suffix.as_str()) || list_contains(
            self.enabled_services.as_slice(),
            base.as_str(),
        ) {
            ServiceStatus::Enabled
        } else {
            ServiceStatus::Disabled
        }
    }
}

impl Default for SystemStatus {
    fn default() -> (s: SystemStatus)
        ensures
            s.official@.len() == 0,
            s.aur@.len() == 0,
            s.enabled_services@.len() == 0,
            s.updates_available@.len() == 0,
            s.bootloader == Bootloader::Unknown,
            !s.multilib_enabled,
            s.locale is None,
            s.timezone is None,
            s.keymap is None,
            s.hostname is None,
            s.consistent(),
    {
        SystemStatus::empty()
    }
}

} // verus!
