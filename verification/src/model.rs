//! Core data of the catalog and of installation plans.

use vstd::prelude::*;

use crate::text::{
    cat3, clone_opt, clone_strings, join, join_seq, list_contains, list_has, oview, owned, trim,
    trim_seq, views,
};

verus! {

/// Where a package is installed from.
#[derive(Debug, Clone, Copy, PartialEq, Eq, Structural)]
pub enum Source {
    /// Official repositories (pacman).
    Official,
    /// Arch User Repository (yay).
    Aur,
}

/// One package of the catalog.
#[derive(Debug, Clone)]
pub struct Package {
    /// Exact package name as pacman/yay know it.
    pub name: &'static str,
    /// Short description shown in the menu.
    pub description: &'static str,
    /// Where it is installed from.
    pub source: Source,
    /// Whether it starts selected.
    pub default_on: bool,
}

/// A selectable desktop environment or window manager.
#[derive(Debug, Clone)]
pub struct DesktopEnvironment {
    /// Stable key used in profiles (such as `hyprland`).
    pub id: &'static str,
    /// Readable name shown in the menu.
    pub label: &'static str,
    /// Packages of the environment itself (without the common base).
    pub packages: Vec<&'static str>,
    /// Recommended display manager, if any.
    pub display_manager: Option<&'static str>,
}

/// A selectable set of drivers (GPU or CPU microcode).
#[derive(Debug, Clone)]
pub struct DriverBundle {
    /// Stable key (such as `nvidia`).
    pub id: &'static str,
    /// Readable name shown in the menu.
    pub label: &'static str,
    /// Official packages this driver installs.
    pub packages: Vec<&'static str>,
    /// Whether it starts selected.
    pub default_on: bool,
}

/// The plan the user confirmed and the installer carries out.
#[derive(Debug, Clone)]
pub struct InstallPlan {
    pub desktop_env_id: Option<String>,
    pub display_manager: Option<String>,
    /// Official packages (base, environment, drivers and extras).
    pub official: Vec<String>,
    /// AUR packages.
    pub aur: Vec<String>,
    /// System services to enable (NetworkManager, bluetooth, the display manager).
    pub services: Vec<String>,
    /// User services to enable (the PipeWire audio stack).
    pub user_services: Vec<String>,
    /// Locale to generate and set. `None` leaves it alone.
    pub locale: Option<String>,
    /// Time zone. `None` leaves it alone.
    pub timezone: Option<String>,
    /// Console keymap. `None` leaves it alone.
    pub keymap: Option<String>,
    /// Hostname. `None` leaves it alone.
    pub hostname: Option<String>,
    /// Country or region for `reflector --country`. `None` keeps the mirror list.
    pub mirror_region: Option<String>,
    /// Enable the `[multilib]` repository.
    pub enable_multilib: bool,
    /// Reboot when finished.
    pub reboot_after: bool,
    /// Remove orphaned packages when finished.
    pub cleanup_orphans: bool,
    /// Shell commands run at the very end (`sh -c`).
    pub post_install: Vec<String>,
}

/// Label style for the system settings summary.
#[derive(Debug, Clone, Copy, PartialEq, Eq, Structural)]
pub enum SystemLabelStyle {
    /// Bare words: `locale`, `zona`, `teclado`, ...
    Short,
    /// `key=value` pairs for the text fields.
    Detailed,
}

/// A profile kept on disk to reproduce an installation.
#[derive(Debug, Clone)]
pub struct Profile {
    pub name: String,
    pub desktop_environment: Option<String>,
    pub display_manager: Option<String>,
    pub official_packages: Vec<String>,
    pub aur_packages: Vec<String>,
    /// Country or region for `reflector`; same as `InstallPlan::mirror_region`.
    pub mirror_region: Option<String>,
    pub locale: Option<String>,
    pub timezone: Option<String>,
    pub keymap: Option<String>,
    pub hostname: Option<String>,
}

// ----------------------------------------------------------------------
// Specifications
// ----------------------------------------------------------------------

/// What `format_list_or_none` shows.
pub open spec fn list_or_none(items: Seq<Seq<char>>) -> Seq<char> {
    if items.len() == 0 {
        "(ninguno)"@
    } else {
        join_seq(items, ", "@)
    }
}

/// The label one text setting contributes.
pub open spec fn setting_label(
    value: Option<Seq<char>>,
    key: Seq<char>,
    style: SystemLabelStyle,
) -> Seq<Seq<char>> {
    match value {
        None => Seq::empty(),
        Some(v) => match style {
            SystemLabelStyle::Short => seq![key],
            SystemLabelStyle::Detailed => seq![key + "="@ + v],
        },
    }
}

/// The labels of `format_system_settings`: the text settings that are present,
/// in a fixed order, then the active flags.
pub open spec fn system_settings(
    locale: Option<Seq<char>>,
    timezone: Option<Seq<char>>,
    keymap: Option<Seq<char>>,
    hostname: Option<Seq<char>>,
    mirror_region: Option<Seq<char>>,
    multilib: bool,
    reboot: bool,
    style: SystemLabelStyle,
) -> Seq<Seq<char>> {
    setting_label(locale, "locale"@, style) + setting_label(timezone, "zona"@, style)
        + setting_label(keymap, "teclado"@, style) + setting_label(hostname, "hostname"@, style)
        + setting_label(mirror_region, "mirrors"@, style) + (if multilib {
        seq!["multilib"@]
    } else {
        Seq::empty()
    }) + (if reboot {
        seq!["reiniciar"@]
    } else {
        Seq::empty()
    })
}

/// The character view of an optional string slice.
pub open spec fn sview(o: Option<&str>) -> Option<Seq<char>> {
    match o {
        Some(s) => Some(s@),
        None => None,
    }
}

/// System services a plan enables: the display manager (trimmed, when not
/// blank), `NetworkManager` when `networkmanager` is installed, and
/// `bluetooth` when `bluez` or `bluez-utils` is.
pub open spec fn system_services(official: Seq<String>, dm: Option<Seq<char>>) -> Seq<Seq<char>> {
    let a = match dm {
        Some(d) => if trim_seq(d).len() > 0 {
            seq![trim_seq(d)]
        } else {
            Seq::empty()
        },
        None => Seq::empty(),
    };
    let b = if list_has(official, "networkmanager"@) {
        a.push("NetworkManager"@)
    } else {
        a
    };
    if list_has(official, "bluez"@) || list_has(official, "bluez-utils"@) {
        b.push("bluetooth"@)
    } else {
        b
    }
}

/// User services a plan enables: the PipeWire stack, when `pipewire` is installed.
pub open spec fn user_services(official: Seq<String>) -> Seq<Seq<char>> {
    if list_has(official, "pipewire"@) {
        let a = seq!["pipewire"@];
        let b = if list_has(official, "pipewire-pulse"@) {
            a.push("pipewire-pulse"@)
        } else {
            a
        };
        if list_has(official, "wireplumber"@) {
            b.push("wireplumber"@)
        } else {
            b
        }
    } else {
        Seq::empty()
    }
}

/// `Some` of the trimmed text when it is not blank.
pub open spec fn nonempty_seq(s: Seq<char>) -> Option<Seq<char>> {
    if trim_seq(s).len() == 0 {
        None
    } else {
        Some(trim_seq(s))
    }
}

/// An optional text normalized: blank becomes `None`, the rest is trimmed.
pub open spec fn normalized(o: Option<Seq<char>>) -> Option<Seq<char>> {
    match o {
        Some(s) => nonempty_seq(s),
        None => None,
    }
}

/// The plan contains a CPU microcode package.
pub open spec fn plan_has_microcode(official: Seq<String>) -> bool {
    list_has(official, "intel-ucode"@) || list_has(official, "amd-ucode"@)
}

/// The plan contains the proprietary NVIDIA driver.
pub open spec fn plan_has_nvidia(official: Seq<String>) -> bool {
    list_has(official, "nvidia"@) || list_has(official, "nvidia-open"@)
}

impl InstallPlan {
    /// The plan's system settings as the review screen lists them.
    pub open spec fn settings(self, style: SystemLabelStyle) -> Seq<Seq<char>> {
        system_settings(
            oview(self.locale),
            oview(self.timezone),
            oview(self.keymap),
            oview(self.hostname),
            oview(self.mirror_region),
            self.enable_multilib,
            self.reboot_after,
            style,
        )
    }
}

// ----------------------------------------------------------------------
// Functions
// ----------------------------------------------------------------------

/// Joins a list for display; an empty list shows `(ninguno)` so that the user
/// sees explicitly that nothing is selected.
pub fn format_list_or_none(items: &[String]) -> (r: String)
    ensures
        r@ == list_or_none(views(items@)),
{
    if items.len() == 0 {
        owned("(ninguno)")
    } else {
        join(items, ", ")
    }
}

fn push_setting(out: &mut Vec<String>, value: Option<&str>, key: &str, style: SystemLabelStyle)
    ensures
        views(final(out)@) == views(old(out)@) + setting_label(sview(value), key@, style),
{
    let ghost before = out@;
    match value {
        None => {
            assert(views(out@) =~= views(before) + setting_label(sview(value), key@, style));
        },
        Some(v) => {
            let label = match style {
                SystemLabelStyle::Short => owned(key),
                SystemLabelStyle::Detailed => cat3(key, "=", v),
            };
            out.push(label);
            assert(views(out@) =~= views(before) + setting_label(sview(value), key@, style));
        },
    }
}

fn push_label(out: &mut Vec<String>, on: bool, label: &str)
    ensures
        views(final(out)@) == views(old(out)@) + (if on {
            seq![label@]
        } else {
            Seq::<Seq<char>>::empty()
        }),
{
    let ghost before = out@;
    if on {
        out.push(owned(label));
    }
    assert(views(out@) =~= views(before) + (if on {
        seq![label@]
    } else {
        Seq::<Seq<char>>::empty()
    }));
}

/// The labels that describe the given system settings. Empty options add
/// nothing; the flags appear only when active. Shared by the menu, the review
/// screen and the command line so that they never disagree.
pub fn format_system_settings(
    locale: Option<&str>,
    timezone: Option<&str>,
    keymap: Option<&str>,
    hostname: Option<&str>,
    mirror_region: Option<&str>,
    multilib: bool,
    reboot: bool,
    style: SystemLabelStyle,
) -> (r: Vec<String>)
    ensures
        views(r@) == system_settings(
            sview(locale),
            sview(timezone),
            sview(keymap),
            sview(hostname),
            sview(mirror_region),
            multilib,
            reboot,
            style,
        ),
{
    let mut out: Vec<String> = Vec::new();
    assert(views(out@) =~= Seq::<Seq<char>>::empty());
    push_setting(&mut out, locale, "locale", style);
    push_setting(&mut out, timezone, "zona", style);
    push_setting(&mut out, keymap, "teclado", style);
    push_setting(&mut out, hostname, "hostname", style);
    push_setting(&mut out, mirror_region, "mirrors", style);
    push_label(&mut out, multilib, "multilib");
    push_label(&mut out, reboot, "reiniciar");
    out
}

/// Which services to enable, given the packages of the plan.
fn derive_services(official: &Vec<String>, dm: &Option<String>) -> (r: (Vec<String>, Vec<String>))
    ensures
        views(r.0@) == system_services(official@, oview(*dm)),
        views(r.1@) == user_services(official@),
{
    let mut system: Vec<String> = Vec::new();
    if let Some(d) = dm {
        let t = trim(d.as_str());
        if !t.as_str().is_empty() {
            system.push(t);
        }
    }
    let ghost a = views(system@);
    proof {
        assert(a =~= (match oview(*dm) {
            Some(d) => if trim_seq(d).len() > 0 {
                seq![trim_seq(d)]
            } else {
                Seq::empty()
            },
            None => Seq::empty(),
        }));
    }
    if list_contains(official.as_slice(), "networkmanager") {
        system.push(owned("NetworkManager"));
    }
    let ghost b = views(system@);
    proof {
        assert(b =~= (if list_has(official@, "networkmanager"@) {
            a.push("NetworkManager"@)
        } else {
            a
        }));
    }
    if list_contains(official.as_slice(), "bluez") || list_contains(
        official.as_slice(),
        "bluez-utils",
    ) {
        system.push(owned("bluetooth"));
    }
    proof {
        assert(views(system@) =~= (if list_has(official@, "bluez"@) || list_has(
            official@,
            "bluez-utils"@,
        ) {
            b.push("bluetooth"@)
        } else {
            b
        }));
    }
    let mut user: Vec<String> = Vec::new();
    if list_contains(official.as_slice(), "pipewire") {
        user.push(owned("pipewire"));
        let ghost ua = views(user@);
        assert(ua =~= seq!["pipewire"@]);
        if list_contains(official.as_slice(), "pipewire-pulse") {
            user.push(owned("pipewire-pulse"));
        }
        let ghost ub = views(user@);
        assert(ub =~= (if list_has(official@, "pipewire-pulse"@) {
            ua.push("pipewire-pulse"@)
        } else {
            ua
        }));
        if list_contains(official.as_slice(), "wireplumber") {
            user.push(owned("wireplumber"));
        }
        assert(views(user@) =~= (if list_has(official@, "wireplumber"@) {
            ub.push("wireplumber"@)
        } else {
            ub
        }));
    } else {
        assert(views(user@) =~= Seq::<Seq<char>>::empty());
    }
    (system, user)
}

impl InstallPlan {
    /// Builds a plan, deriving the services to enable from the chosen packages
    /// and display manager. The system settings start empty; the caller sets
    /// them.
    pub fn new(
        desktop_env_id: Option<String>,
        display_manager: Option<String>,
        official: Vec<String>,
        aur: Vec<String>,
    ) -> (plan: InstallPlan)
        ensures
            plan.desktop_env_id == desktop_env_id,
            plan.display_manager == display_manager,
            plan.official@ == official@,
            plan.aur@ == aur@,
            views(plan.services@) == system_services(official@, oview(display_manager)),
            views(plan.user_services@) == user_services(official@),
            plan.locale is None,
            plan.timezone is None,
            plan.keymap is None,
            plan.hostname is None,
            plan.mirror_region is None,
            !plan.enable_multilib,
            !plan.reboot_after,
            !plan.cleanup_orphans,
            plan.post_install@.len() == 0,
    {
        let (services, user_services) = derive_services(&official, &display_manager);
        InstallPlan {
            desktop_env_id,
            display_manager,
            official,
            aur,
            services,
            user_services,
            locale: None,
            timezone: None,
            keymap: None,
            hostname: None,
            mirror_region: None,
            enable_multilib: false,
            reboot_after: false,
            cleanup_orphans: false,
            post_install: Vec::new(),
        }
    }

    /// True when the plan installs no package at all.
    pub fn is_empty(&self) -> (b: bool)
        ensures
            b == (self.official@.len() == 0 && self.aur@.len() == 0),
    {
        self.official.len() == 0 && self.aur.len() == 0
    }

    /// True if the plan holds a CPU microcode package.
    pub fn has_microcode(&self) -> (b: bool)
        ensures
            b == plan_has_microcode(self.official@),
    {
        list_contains(self.official.as_slice(), "intel-ucode") || list_contains(
            self.official.as_slice(),
            "amd-ucode",
        )
    }

    /// True if the plan installs the proprietary NVIDIA driver.
    pub fn has_nvidia(&self) -> (b: bool)
        ensures
            b == plan_has_nvidia(self.official@),
    {
        list_contains(self.official.as_slice(), "nvidia") || list_contains(
            self.official.as_slice(),
            "nvidia-open",
        )
    }

    /// Kernel parameters the chosen drivers need.
    pub fn kernel_params(&self) -> (params: Vec<String>)
        ensures
            views(params@) == (if plan_has_nvidia(self.official@) {
                seq!["nvidia-drm.modeset=1"@]
            } else {
                Seq::<Seq<char>>::empty()
            }),
    {
        let mut params: Vec<String> = Vec::new();
        if self.has_nvidia() {
            params.push(owned("nvidia-drm.modeset=1"));
        }
        assert(views(params@) =~= (if plan_has_nvidia(self.official@) {
            seq!["nvidia-drm.modeset=1"@]
        } else {
            Seq::<Seq<char>>::empty()
        }));
        params
    }
}

/// `Some` of the trimmed text, only when it is not blank.
fn nonempty_string(s: String) -> (r: Option<String>)
    ensures
        oview(r) == nonempty_seq(s@),
{
    let t = trim(s.as_str());
    if t.as_str().is_empty() {
        None
    } else {
        Some(t)
    }
}

fn normalize(o: Option<String>) -> (r: Option<String>)
    ensures
        oview(r) == normalized(oview(o)),
{
    match o {
        Some(s) => nonempty_string(s),
        None => None,
    }
}

impl Profile {
    /// The profile that reproduces `plan` under the name `name`.
    pub fn from_plan(name: &str, plan: &InstallPlan) -> (p: Profile)
        ensures
            profile_of(p, name@, *plan),
    {
        Profile {
            name: owned(name),
            desktop_environment: clone_opt(&plan.desktop_env_id),
            display_manager: clone_opt(&plan.display_manager),
            official_packages: clone_strings(&plan.official),
            aur_packages: clone_strings(&plan.aur),
            mirror_region: clone_opt(&plan.mirror_region),
            locale: clone_opt(&plan.locale),
            timezone: clone_opt(&plan.timezone),
            keymap: clone_opt(&plan.keymap),
            hostname: clone_opt(&plan.hostname),
        }
    }

    /// The plan this profile describes. A hand-edited profile may hold blank
    /// strings where `None` is meant (`display_manager = ""`); they are
    /// normalized so that no bogus service is derived.
    pub fn into_plan(self) -> (plan: InstallPlan)
        ensures
            plan_of(plan, self),
    {
        let de = normalize(self.desktop_environment);
        let dm = normalize(self.display_manager);
        let region = normalize(self.mirror_region);
        let mut plan = InstallPlan::new(de, dm, self.official_packages, self.aur_packages);
        plan.mirror_region = region;
        plan
    }
}

/// `p` is the profile that reproduces `plan` under the name `name`: every
/// field copied as it is.
pub open spec fn profile_of(p: Profile, name: Seq<char>, plan: InstallPlan) -> bool {
    &&& p.name@ == name
    &&& p.desktop_environment == plan.desktop_env_id
    &&& p.display_manager == plan.display_manager
    &&& p.official_packages@ == plan.official@
    &&& p.aur_packages@ == plan.aur@
    &&& p.mirror_region == plan.mirror_region
    &&& p.locale == plan.locale
    &&& p.timezone == plan.timezone
    &&& p.keymap == plan.keymap
    &&& p.hostname == plan.hostname
}

/// `plan` is the plan profile `p` describes: its texts normalized (blank
/// ones become `None`), its services derived from its packages, and no
/// system setting.
pub open spec fn plan_of(plan: InstallPlan, p: Profile) -> bool {
    &&& oview(plan.desktop_env_id) == normalized(oview(p.desktop_environment))
    &&& oview(plan.display_manager) == normalized(oview(p.display_manager))
    &&& plan.official@ == p.official_packages@
    &&& plan.aur@ == p.aur_packages@
    &&& views(plan.services@) == system_services(
        p.official_packages@,
        normalized(oview(p.display_manager)),
    )
    &&& views(plan.user_services@) == user_services(p.official_packages@)
    &&& oview(plan.mirror_region) == normalized(oview(p.mirror_region))
    &&& plan.locale is None
    &&& plan.timezone is None
    &&& plan.keymap is None
    &&& plan.hostname is None
    &&& !plan.enable_multilib
    &&& !plan.reboot_after
    &&& !plan.cleanup_orphans
    &&& plan.post_install@.len() == 0
}

/// A plan survives being saved as a profile and loaded back: the
/// environment, the display manager and both package lists come back equal
/// when the environment and display manager are already normalized (as
/// `build_plan` makes them), and the services are derived again from the
/// same packages.
pub proof fn lemma_profile_roundtrip(plan: InstallPlan, name: Seq<char>, p: Profile, back: InstallPlan)
    requires
        profile_of(p, name, plan),
        plan_of(back, p),
        normalized(oview(plan.desktop_env_id)) == oview(plan.desktop_env_id),
        normalized(oview(plan.display_manager)) == oview(plan.display_manager),
    ensures
        oview(back.desktop_env_id) == oview(plan.desktop_env_id),
        oview(back.display_manager) == oview(plan.display_manager),
        back.official@ == plan.official@,
        back.aur@ == plan.aur@,
        views(back.services@) == system_services(plan.official@, oview(plan.display_manager)),
        views(back.user_services@) == user_services(plan.official@),
        oview(back.mirror_region) == normalized(oview(plan.mirror_region)),
{
}

} // verus!
