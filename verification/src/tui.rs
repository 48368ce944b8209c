//! The interactive assistant in the style of archinstall: a main menu from
//! which each section is configured (environment, drivers, packages, live
//! search, system settings, profiles) before the installation starts.
//!
//! This module holds the assistant's state and every decision it takes on a
//! key press. Drawing the screens, reading keys, searching, listing the
//! option lists and reading or writing profiles happen outside the library:
//! a key press may answer with a `Request`, whose result comes back through
//! one of the `App` methods that take it.

use vstd::prelude::*;

use crate::catalog::{
    base_packages, base_spec, desktop_environments, driver_view, drivers, drivers_spec,
    env_view, envs_spec, extra_packages, extras_spec, package_view, strs,
};
use crate::detect::{PackageStatus, ServiceStatus, SystemStatus};
use crate::estimate::PlanEstimate;
use crate::model::{
    format_system_settings, nonempty_seq, system_services, system_settings, user_services,
    InstallPlan, Profile, Source, SystemLabelStyle,
};
use crate::order::{dedup_texts, sort_dedup_strings, sort_texts};
use crate::preflight::PreflightReport;
use crate::text::{
    cat3, chars_of, contains_seq, join, join_seq, lowercase, oview, owned, str_eq, to_lowercase,
    trim, trim_seq, views, clone_opt,
};
use crate::validate::{
    is_valid_hostname, is_valid_keymap, is_valid_locale, is_valid_timezone, valid_hostname,
    valid_keymap, valid_locale, valid_timezone,
};

verus! {

/// A selectable package (from the catalog or added by a search).
#[derive(Debug)]
pub struct PkgItem {
    pub name: String,
    pub description: String,
    pub selected: bool,
    /// Already installed on the system. It only changes how the item is
    /// shown; the installer skips installed packages by itself.
    pub installed: bool,
}

/// The form field a picker edits.
#[derive(Debug, Clone, Copy, PartialEq, Eq, Structural)]
pub enum PickerTarget {
    Locale,
    Timezone,
    Keymap,
    Mirror,
}

/// The first option of every picker: type a value that is not listed.
pub open spec fn custom_option() -> Seq<char> {
    "(Personalizado...)"@
}

/// A searchable picker. The whole list is loaded when it opens; the filter
/// applies on every key press.
#[derive(Debug)]
pub struct PickerState {
    pub title: String,
    pub options: Vec<String>,
    pub filter: String,
    pub cursor: usize,
    pub current: String,
    pub target: PickerTarget,
}

/// The options whose lower-case form contains `f`, in order.
pub open spec fn matching(options: Seq<Seq<char>>, f: Seq<char>) -> Seq<Seq<char>>
    decreases options.len(),
{
    if options.len() == 0 {
        Seq::empty()
    } else if contains_seq(lowercase(options.last()), f) {
        matching(options.drop_last(), f).push(options.last())
    } else {
        matching(options.drop_last(), f)
    }
}

/// The options whose lower-case form, given in `lowered` at the same
/// position, contains `f`, in order.
pub open spec fn matching_lowered(options: Seq<Seq<char>>, lowered: Seq<Seq<char>>, f: Seq<char>) -> Seq<
    Seq<char>,
>
    decreases options.len(),
{
    if options.len() == 0 {
        Seq::empty()
    } else {
        let p = matching_lowered(options.drop_last(), lowered.take(options.len() - 1), f);
        if contains_seq(lowered[options.len() - 1], f) {
            p.push(options.last())
        } else {
            p
        }
    }
}

/// With each option's lower-case form at its position, matching on the
/// given forms is matching on the options.
pub proof fn lemma_matching_lowered(options: Seq<Seq<char>>, lowered: Seq<Seq<char>>, f: Seq<char>)
    requires
        lowered.len() == options.len(),
        forall|i: int| 0 <= i < options.len() ==> lowered[i] == lowercase(#[trigger] options[i]),
    ensures
        matching_lowered(options, lowered, f) == matching(options, f),
    decreases options.len(),
{
    if options.len() > 0 {
        let n = options.len() - 1;
        let lt = lowered.take(n);
        let ot = options.drop_last();
        assert forall|i: int| 0 <= i < ot.len() implies lt[i] == lowercase(#[trigger] ot[i]) by {
            assert(ot[i] == options[i]);
        }
        lemma_matching_lowered(ot, lt, f);
        assert(options[n] == options.last());
    }
}

/// What a picker shows: every option when the filter is empty, otherwise
/// the ones that contain the filter, ignoring case.
pub open spec fn filtered_spec(options: Seq<Seq<char>>, filter: Seq<char>) -> Seq<Seq<char>> {
    if filter.len() == 0 {
        options
    } else {
        matching(options, lowercase(filter))
    }
}

/// The views of a list of string slices.
pub open spec fn str_views(v: Seq<&str>) -> Seq<Seq<char>> {
    v.map_values(|s: &str| s@)
}

impl PickerState {
    /// A picker over `options`, with the custom-value option put first.
    pub fn new(title: &str, options: Vec<String>, current: String, target: PickerTarget) -> (p:
        PickerState)
        ensures
            p.title@ == title@,
            views(p.options@) == seq![custom_option()] + views(options@),
            p.filter@.len() == 0,
            p.cursor == 0,
            p.current@ == current@,
            p.target == target,
    {
        let mut options = options;
        let ghost before = options@;
        options.insert(0, owned("(Personalizado...)"));
        assert(views(options@) =~= seq![custom_option()] + views(before));
        PickerState {
            title: owned(title),
            options,
            filter: String::new(),
            cursor: 0,
            current,
            target,
        }
    }

    /// The options that match the filter, case-insensitively.
    pub fn filtered(&self) -> (r: Vec<&str>)
        ensures
            str_views(r@) == filtered_spec(views(self.options@), self.filter@),
    {
        let ghost vs = views(self.options@);
        let mut r: Vec<&str> = Vec::new();
        if self.filter.as_str().is_empty() {
            let mut i: usize = 0;
            while i < self.options.len()
                invariant
                    i <= self.options.len(),
                    vs == views(self.options@),
                    str_views(r@) == vs.take(i as int),
                decreases self.options.len() - i,
            {
                let ghost before = r@;
                r.push(self.options[i].as_str());
                assert(str_views(r@) =~= str_views(before).push(vs[i as int]));
                assert(vs.take(i + 1) =~= vs.take(i as int).push(vs[i as int]));
                i = i + 1;
            }
            assert(vs.take(vs.len() as int) =~= vs);
            return r;
        }
        let f = to_lowercase(self.filter.as_str());
        let mut lowered: Vec<String> = Vec::new();
        let mut i: usize = 0;
        while i < self.options.len()
            invariant
                i <= self.options.len(),
                vs == views(self.options@),
                lowered@.len() == i,
                forall|k: int| 0 <= k < i ==> lowered@[k]@ == lowercase(#[trigger] vs[k]),
            decreases self.options.len() - i,
        {
            lowered.push(to_lowercase(self.options[i].as_str()));
            i = i + 1;
        }
        proof {
            assert forall|k: int| 0 <= k < vs.len() implies views(lowered@)[k] == lowercase(
                #[trigger] vs[k],
            ) by {}
            lemma_matching_lowered(vs, views(lowered@), f@);
        }
        matching_options(&self.options, &lowered, f.as_str())
    }
}

/// The options whose lower-case form (`lowered`, at the same position)
/// contains the lower-case filter `f`, in order.
pub fn matching_options<'a>(options: &'a Vec<String>, lowered: &Vec<String>, f: &str) -> (r: Vec<
    &'a str,
>)
    requires
        lowered@.len() == options@.len(),
    ensures
        str_views(r@) == matching_lowered(views(options@), views(lowered@), f@),
{
    let ghost vs = views(options@);
    let ghost ls = views(lowered@);
    let fc = chars_of(f);
    let mut r: Vec<&str> = Vec::new();
    let mut i: usize = 0;
    assert(vs.take(0) =~= Seq::<Seq<char>>::empty());
    while i < options.len()
        invariant
            i <= options.len(),
            lowered@.len() == options@.len(),
            vs == views(options@),
            ls == views(lowered@),
            fc@ == f@,
            str_views(r@) == matching_lowered(vs.take(i as int), ls.take(i as int), fc@),
        decreases options.len() - i,
    {
        proof {
            assert(vs.take(i + 1).drop_last() =~= vs.take(i as int));
            assert(vs.take(i + 1).last() == vs[i as int]);
            assert(ls.take(i + 1).take(i as int) =~= ls.take(i as int));
            assert(ls.take(i + 1)[i as int] == ls[i as int]);
        }
        let lc = chars_of(lowered[i].as_str());
        if crate::text::contains_chars(lc.as_slice(), fc.as_slice()) {
            let ghost before = r@;
            r.push(options[i].as_str());
            assert(str_views(r@) =~= str_views(before).push(vs[i as int]));
        }
        i = i + 1;
    }
    assert(vs.take(vs.len() as int) =~= vs);
    assert(ls.take(ls.len() as int) =~= ls);
    r
}

/// The screens of the assistant.
#[derive(Debug, Clone, Copy, PartialEq, Eq, Structural)]
pub enum Mode {
    Welcome,
    Main,
    Desktop,
    Drivers,
    Official,
    PickLocale,
    PickTimezone,
    PickKeymap,
    PickMirror,
    Aur,
    System,
    Search,
    LoadProfile,
    SaveProfile,
    Review,
}

/// A key press, as far as the assistant tells keys apart.
#[derive(Debug, Clone, Copy, PartialEq, Eq, Structural)]
pub enum Key {
    Up,
    Down,
    Home,
    End,
    PageUp,
    PageDown,
    Enter,
    Esc,
    Backspace,
    Tab,
    Char(char),
    Other,
}

/// How the assistant ended.
#[derive(Debug)]
pub enum Outcome {
    Cancelled,
    Confirmed { plan: Box<InstallPlan>, save_as: Option<String> },
}

/// Entries of the main menu, in order.
pub const MENU_DESKTOP: usize = 0;
pub const MENU_DRIVERS: usize = 1;
pub const MENU_OFFICIAL: usize = 2;
pub const MENU_AUR: usize = 3;
pub const MENU_SYSTEM: usize = 4;
pub const MENU_MIRROR: usize = 5;
pub const MENU_SEARCH: usize = 6;
pub const MENU_LOAD: usize = 7;
pub const MENU_SAVE: usize = 8;
pub const MENU_INSTALL: usize = 9;
pub const MENU_QUIT: usize = 10;
/// Number of main menu entries.
pub const MENU_LEN: usize = 11;

/// Number of fields of the system settings form, and the toggles among them.
pub const SYS_FIELDS: usize = 7;
pub const SYS_MULTILIB: usize = 4;
pub const SYS_REBOOT: usize = 5;
pub const SYS_CLEANUP: usize = 6;

/// The labels of the main menu, in order.
pub open spec fn menu_spec() -> Seq<Seq<char>> {
    seq![
        "Entorno de escritorio"@,
        "Controladores (drivers GPU + microcodigo)"@,
        "Paquetes oficiales"@,
        "Paquetes AUR"@,
        "Configuracion del sistema (locale, zona, teclado...)"@,
        "Mirrors (pais/region para reflector)"@,
        "Buscar y anadir paquetes (oficial/AUR)"@,
        "Cargar perfil"@,
        "Guardar perfil"@,
        "Instalar ahora"@,
        "Salir"@,
    ]
}

/// The labels of the main menu.
pub fn menu_labels() -> (r: Vec<&'static str>)
    ensures
        str_views(r@) == menu_spec(),
        r@.len() == MENU_LEN,
{
    let r = vec![
        "Entorno de escritorio",
        "Controladores (drivers GPU + microcodigo)",
        "Paquetes oficiales",
        "Paquetes AUR",
        "Configuracion del sistema (locale, zona, teclado...)",
        "Mirrors (pais/region para reflector)",
        "Buscar y anadir paquetes (oficial/AUR)",
        "Cargar perfil",
        "Guardar perfil",
        "Instalar ahora",
        "Salir",
    ];
    assert(str_views(r@) =~= menu_spec());
    r
}

/// The state of the assistant.
#[derive(Debug)]
pub struct App {
    pub mode: Mode,
    pub main_cursor: usize,
    pub de_index: usize,
    /// Checked or not, parallel to the driver catalog.
    pub drivers: Vec<bool>,
    /// All the packages of the driver are installed, parallel to the catalog.
    pub drivers_installed: Vec<bool>,
    pub official: Vec<PkgItem>,
    pub aur: Vec<PkgItem>,
    pub list_cursor: usize,
    pub status: String,
    /// What was detected of the system when the assistant started.
    pub sys_state: SystemStatus,
    /// Newer release available (its tag without `v`), shown until dismissed.
    pub update_notice: Option<String>,
    pub update_dismissed: bool,
    /// Pre-flight result for the current plan, computed on the review screen.
    pub preflight: Option<PreflightReport>,
    /// Space estimate for the current plan, computed on the review screen.
    pub estimate: Option<PlanEstimate>,
    /// The active picker (used only in the picker screens).
    pub picker: PickerState,
    pub search_source: Source,
    pub search_input: String,
    pub search_results: Vec<PkgItem>,
    /// Key presses go to a text field.
    pub typing: bool,
    pub profiles: Vec<String>,
    pub name_input: String,
    pub sys_cursor: usize,
    pub sys_locale: String,
    pub sys_timezone: String,
    pub sys_keymap: String,
    pub sys_hostname: String,
    pub sys_multilib: bool,
    pub sys_reboot: bool,
    pub sys_cleanup_orphans: bool,
    /// Country or region for reflector.
    pub sys_mirror_region: String,
}

// ----------------------------------------------------------------------
// Specifications of the selections
// ----------------------------------------------------------------------

/// Name, description, selected, installed.
pub open spec fn item_view(p: PkgItem) -> (Seq<char>, Seq<char>, bool, bool) {
    (p.name@, p.description@, p.selected, p.installed)
}

pub open spec fn item_views(v: Seq<PkgItem>) -> Seq<(Seq<char>, Seq<char>, bool, bool)> {
    v.map_values(|p: PkgItem| item_view(p))
}

/// The names of the selected items, in order.
pub open spec fn selected_names(v: Seq<(Seq<char>, Seq<char>, bool, bool)>) -> Seq<Seq<char>>
    decreases v.len(),
{
    if v.len() == 0 {
        Seq::empty()
    } else if v.last().2 {
        selected_names(v.drop_last()).push(v.last().0)
    } else {
        selected_names(v.drop_last())
    }
}

/// Number of selected items.
pub open spec fn selected_count(v: Seq<(Seq<char>, Seq<char>, bool, bool)>) -> nat {
    selected_names(v).len()
}

/// The package is reported installed from `src`.
pub open spec fn installed_flag(sys: SystemStatus, name: Seq<char>, src: Source) -> bool {
    sys.package_status_spec(name, src) == PackageStatus::Installed
}

/// The catalog's extra packages of one source as selectable items.
pub open spec fn catalog_items(
    ex: Seq<(Seq<char>, Seq<char>, Source, bool)>,
    src: Source,
    sys: SystemStatus,
) -> Seq<(Seq<char>, Seq<char>, bool, bool)>
    decreases ex.len(),
{
    if ex.len() == 0 {
        Seq::empty()
    } else if ex.last().2 == src {
        catalog_items(ex.drop_last(), src, sys).push(
            (ex.last().0, ex.last().1, ex.last().3, installed_flag(sys, ex.last().0, src)),
        )
    } else {
        catalog_items(ex.drop_last(), src, sys)
    }
}

/// Every package of a driver is installed.
pub open spec fn all_installed(sys: SystemStatus, pkgs: Seq<Seq<char>>) -> bool {
    forall|k: int| 0 <= k < pkgs.len() ==> installed_flag(sys, #[trigger] pkgs[k], Source::Official)
}

/// Official packages an environment brings: the common base, its own
/// packages and its display manager; none for the "ninguno" entry.
pub open spec fn env_packages(
    e: (Seq<char>, Seq<char>, Seq<Seq<char>>, Option<Seq<char>>),
) -> Seq<Seq<char>> {
    if e.0 == "ninguno"@ {
        Seq::empty()
    } else {
        base_spec() + e.2 + match e.3 {
            Some(d) => seq![d],
            None => Seq::empty(),
        }
    }
}

/// Packages of the first `n` driver bundles that are checked.
pub open spec fn driver_packages(checked: Seq<bool>, n: nat) -> Seq<Seq<char>>
    decreases n,
{
    if n == 0 {
        Seq::empty()
    } else {
        let i = n - 1;
        driver_packages(checked, (n - 1) as nat) + if i < checked.len() && checked[i] {
            drivers_spec()[i].2
        } else {
            Seq::empty()
        }
    }
}

/// The official packages of the plan, before sorting.
pub open spec fn official_raw(app: App) -> Seq<Seq<char>> {
    env_packages(envs_spec()[app.de_index as int]) + driver_packages(
        app.drivers@,
        drivers_spec().len(),
    ) + selected_names(item_views(app.official@))
}

proof fn lemma_checked_bundle_listed(checked: Seq<bool>, n: nat, i: int, p: Seq<char>)
    requires
        0 <= i < n,
        n <= drivers_spec().len(),
        i < checked.len(),
        checked[i],
        drivers_spec()[i].2.contains(p),
    ensures
        driver_packages(checked, n).contains(p),
    decreases n,
{
    let prev = driver_packages(checked, (n - 1) as nat);
    let last = (n - 1) as int;
    let tail = if last < checked.len() && checked[last] {
        drivers_spec()[last].2
    } else {
        Seq::empty()
    };
    assert(driver_packages(checked, n) == prev + tail);
    if i < last {
        lemma_checked_bundle_listed(checked, (n - 1) as nat, i, p);
        let k = choose|k: int| 0 <= k < prev.len() && prev[k] == p;
        assert((prev + tail)[k] == p);
    } else {
        let k = choose|k: int| 0 <= k < tail.len() && tail[k] == p;
        assert((prev + tail)[prev.len() + k] == p);
    }
}

/// A checked driver bundle always reaches the plan: every package of every
/// bundle of the catalog that is checked is among the plan's official
/// packages.
pub proof fn lemma_checked_drivers_in_plan(app: App, plan: InstallPlan, i: int, p: Seq<char>)
    requires
        app.wf(),
        plan_built(app, plan),
        0 <= i < drivers_spec().len(),
        app.drivers@[i],
        drivers_spec()[i].2.contains(p),
    ensures
        views(plan.official@).contains(p),
{
    lemma_checked_bundle_listed(app.drivers@, drivers_spec().len(), i, p);
    let a = env_packages(envs_spec()[app.de_index as int]);
    let d = driver_packages(app.drivers@, drivers_spec().len());
    let c = selected_names(item_views(app.official@));
    let k = choose|k: int| 0 <= k < d.len() && d[k] == p;
    assert((a + d + c)[a.len() + k] == p);
    assert(official_raw(app).contains(p));
    crate::order::lemma_sort_dedup_set(official_raw(app));
}

proof fn lemma_selected_names_has(v: Seq<(Seq<char>, Seq<char>, bool, bool)>, i: int)
    requires
        0 <= i < v.len(),
        v[i].2,
    ensures
        selected_names(v).contains(v[i].0),
    decreases v.len(),
{
    let p = v.drop_last();
    if i == v.len() - 1 {
        assert(selected_names(v)[selected_names(p).len() as int] == v[i].0);
    } else {
        assert(p[i] == v[i]);
        lemma_selected_names_has(p, i);
        let k = choose|k: int| 0 <= k < selected_names(p).len() && selected_names(p)[k] == v[i].0;
        if v.last().2 {
            assert(selected_names(v)[k] == v[i].0);
        }
    }
}

proof fn lemma_selected_names_only(v: Seq<(Seq<char>, Seq<char>, bool, bool)>, x: Seq<char>)
    requires
        selected_names(v).contains(x),
    ensures
        exists|i: int| 0 <= i < v.len() && v[i].2 && (#[trigger] v[i]).0 == x,
    decreases v.len(),
{
    let p = v.drop_last();
    let k = choose|k: int| 0 <= k < selected_names(v).len() && selected_names(v)[k] == x;
    if v.last().2 && k == selected_names(p).len() {
        assert(v[v.len() - 1].0 == x);
    } else {
        assert(selected_names(p)[k] == x);
        lemma_selected_names_only(p, x);
        let i = choose|i: int| 0 <= i < p.len() && p[i].2 && (#[trigger] p[i]).0 == x;
        assert(v[i] == p[i]);
    }
}

/// Every selected package of either list reaches the plan: a selected
/// official package is among the plan's official packages, and the plan's
/// AUR packages are exactly the names of the selected AUR items.
pub proof fn lemma_selected_packages_in_plan(app: App, plan: InstallPlan)
    requires
        app.wf(),
        plan_built(app, plan),
    ensures
        forall|i: int|
            0 <= i < app.official@.len() && (#[trigger] app.official@[i]).selected ==> views(
                plan.official@,
            ).contains(app.official@[i].name@),
        forall|x: Seq<char>|
            #[trigger] views(plan.aur@).contains(x) <==> exists|i: int|
                0 <= i < app.aur@.len() && app.aur@[i].selected && (#[trigger] app.aur@[i]).name@
                    == x,
{
    let ov = item_views(app.official@);
    let av = item_views(app.aur@);
    crate::order::lemma_sort_dedup_set(official_raw(app));
    crate::order::lemma_sort_dedup_set(selected_names(av));
    assert forall|i: int|
        0 <= i < app.official@.len() && (#[trigger] app.official@[i]).selected implies views(
            plan.official@,
        ).contains(app.official@[i].name@) by {
        assert(ov[i] == item_view(app.official@[i]));
        lemma_selected_names_has(ov, i);
        let a = env_packages(envs_spec()[app.de_index as int]) + driver_packages(
            app.drivers@,
            drivers_spec().len(),
        );
        let c = selected_names(ov);
        let k = choose|k: int| 0 <= k < c.len() && c[k] == ov[i].0;
        assert((a + c)[a.len() + k] == ov[i].0);
        assert(official_raw(app).contains(ov[i].0));
    }
    assert forall|x: Seq<char>| #[trigger] views(plan.aur@).contains(x) implies exists|i: int|
        0 <= i < app.aur@.len() && app.aur@[i].selected && (#[trigger] app.aur@[i]).name@ == x by {
        lemma_selected_names_only(av, x);
        let i = choose|i: int| 0 <= i < av.len() && av[i].2 && (#[trigger] av[i]).0 == x;
        assert(av[i] == item_view(app.aur@[i]));
    }
    assert forall|x: Seq<char>|
        (exists|i: int|
            0 <= i < app.aur@.len() && app.aur@[i].selected && (#[trigger] app.aur@[i]).name@ == x)
            implies #[trigger] views(plan.aur@).contains(x) by {
        let i = choose|i: int|
            0 <= i < app.aur@.len() && app.aur@[i].selected && (#[trigger] app.aur@[i]).name@ == x;
        assert(av[i] == item_view(app.aur@[i]));
        lemma_selected_names_has(av, i);
    }
}

/// Which setting a form field holds.
#[derive(Debug, Clone, Copy, PartialEq, Eq, Structural)]
pub enum Setting {
    Locale,
    Timezone,
    Keymap,
    Hostname,
}

/// The validity rule of a setting.
pub open spec fn setting_valid(kind: Setting, t: Seq<char>) -> bool {
    match kind {
        Setting::Locale => valid_locale(t),
        Setting::Timezone => valid_timezone(t),
        Setting::Keymap => valid_keymap(t),
        Setting::Hostname => valid_hostname(t),
    }
}

/// A form field as it goes into the plan: trimmed, and only when it is not
/// blank and is valid.
pub open spec fn checked_setting(s: Seq<char>, kind: Setting) -> Option<Seq<char>> {
    match nonempty_seq(s) {
        Some(t) => if setting_valid(kind, t) {
            Some(t)
        } else {
            None
        },
        None => None,
    }
}

impl App {
    /// The assistant's state is consistent: its cursors point into the
    /// catalog and the driver checklist is parallel to it.
    pub open spec fn wf(self) -> bool {
        &&& self.de_index < envs_spec().len()
        &&& self.drivers@.len() == drivers_spec().len()
        &&& self.drivers_installed@.len() == drivers_spec().len()
        &&& self.mode == Mode::Desktop ==> self.list_cursor < envs_spec().len()
    }
}

/// `Some` of the trimmed text, only when it is not blank.
pub fn nonempty(s: &str) -> (r: Option<String>)
    ensures
        oview(r) == nonempty_seq(s@),
{
    let t = trim(s);
    if t.as_str().is_empty() {
        None
    } else {
        Some(t)
    }
}

fn checked(s: &str, kind: Setting) -> (r: Option<String>)
    ensures
        oview(r) == checked_setting(s@, kind),
{
    match nonempty(s) {
        Some(t) => {
            let ok = match kind {
                Setting::Locale => is_valid_locale(t.as_str()),
                Setting::Timezone => is_valid_timezone(t.as_str()),
                Setting::Keymap => is_valid_keymap(t.as_str()),
                Setting::Hostname => is_valid_hostname(t.as_str()),
            };
            if ok {
                Some(t)
            } else {
                None
            }
        },
        None => None,
    }
}

fn installed_in(sys: &SystemStatus, name: &str, src: Source) -> (b: bool)
    ensures
        b == installed_flag(*sys, name@, src),
{
    match sys.package_status(name, src) {
        PackageStatus::Installed => true,
        _ => false,
    }
}

fn catalog_list(sys: &SystemStatus, src: Source) -> (r: Vec<PkgItem>)
    ensures
        item_views(r@) == catalog_items(extras_spec(), src, *sys),
{
    let ex = extra_packages();
    let ghost es = ex@.map_values(|p: crate::model::Package| package_view(p));
    let mut r: Vec<PkgItem> = Vec::new();
    let mut i: usize = 0;
    assert(es.take(0) =~= Seq::<(Seq<char>, Seq<char>, Source, bool)>::empty());
    while i < ex.len()
        invariant
            i <= ex.len(),
            es == ex@.map_values(|p: crate::model::Package| package_view(p)),
            es == extras_spec(),
            item_views(r@) == catalog_items(es.take(i as int), src, *sys),
        decreases ex.len() - i,
    {
        proof {
            assert(es.take(i + 1).drop_last() =~= es.take(i as int));
            assert(es.take(i + 1).last() == es[i as int]);
            assert(es[i as int] == package_view(ex@[i as int]));
        }
        let p = &ex[i];
        if p.source == src {
            let installed = installed_in(sys, p.name, src);
            let ghost before = r@;
            r.push(
                PkgItem {
                    name: owned(p.name),
                    description: owned(p.description),
                    selected: p.default_on,
                    installed,
                },
            );
            assert(item_views(r@) =~= item_views(before).push(
                (p.name@, p.description@, p.default_on, installed),
            ));
        }
        i = i + 1;
    }
    assert(es.take(ex.len() as int) =~= es);
    r
}

fn all_installed_exec(sys: &SystemStatus, pkgs: &Vec<&'static str>) -> (b: bool)
    ensures
        b == all_installed(*sys, strs(pkgs@)),
{
    let mut i: usize = 0;
    while i < pkgs.len()
        invariant
            i <= pkgs.len(),
            forall|k: int| 0 <= k < i ==> installed_flag(*sys, #[trigger] strs(pkgs@)[k], Source::Official),
        decreases pkgs.len() - i,
    {
        if !installed_in(sys, pkgs[i], Source::Official) {
            assert(strs(pkgs@)[i as int] == pkgs@[i as int]@);
            return false;
        }
        assert(strs(pkgs@)[i as int] == pkgs@[i as int]@);
        i = i + 1;
    }
    true
}

fn value_or_empty(o: &Option<String>) -> (r: String)
    ensures
        r@ == (match o {
            Some(s) => s@,
            None => Seq::<char>::empty(),
        }),
{
    match o {
        Some(s) => s.clone(),
        None => String::new(),
    }
}

fn push_names(out: &mut Vec<String>, items: &Vec<PkgItem>)
    ensures
        views(final(out)@) == views(old(out)@) + selected_names(item_views(items@)),
{
    let ghost start = views(out@);
    let ghost iv = item_views(items@);
    let mut i: usize = 0;
    assert(iv.take(0) =~= Seq::<(Seq<char>, Seq<char>, bool, bool)>::empty());
    while i < items.len()
        invariant
            i <= items.len(),
            iv == item_views(items@),
            views(out@) == start + selected_names(iv.take(i as int)),
        decreases items.len() - i,
    {
        proof {
            assert(iv.take(i + 1).drop_last() =~= iv.take(i as int));
            assert(iv.take(i + 1).last() == iv[i as int]);
        }
        if items[i].selected {
            let ghost before = out@;
            out.push(items[i].name.clone());
            assert(views(out@) =~= views(before).push(iv[i as int].0));
        }
        i = i + 1;
    }
    assert(iv.take(items.len() as int) =~= iv);
}

fn push_strs(out: &mut Vec<String>, s: &Vec<&'static str>)
    ensures
        views(final(out)@) == views(old(out)@) + strs(s@),
{
    let ghost start = views(out@);
    let mut i: usize = 0;
    while i < s.len()
        invariant
            i <= s.len(),
            views(out@) == start + strs(s@).take(i as int),
        decreases s.len() - i,
    {
        let ghost before = out@;
        out.push(owned(s[i]));
        assert(views(out@) =~= views(before).push(s@[i as int]@));
        assert(strs(s@).take(i + 1) =~= strs(s@).take(i as int).push(s@[i as int]@));
        i = i + 1;
    }
    assert(strs(s@).take(s.len() as int) =~= strs(s@));
}

/// `plan` is the plan the choices of `app` make: the official packages
/// (base, environment, drivers, extras) and the AUR ones sorted without
/// repeats; the environment and its display manager; the services they
/// need; the settings that are filled in and valid; the toggles.
pub open spec fn plan_built(app: App, plan: InstallPlan) -> bool {
    &&& views(plan.official@) == dedup_texts(sort_texts(official_raw(app)))
    &&& views(plan.aur@) == dedup_texts(sort_texts(selected_names(item_views(app.aur@))))
    &&& oview(plan.desktop_env_id) == (if envs_spec()[app.de_index as int].0 == "ninguno"@ {
        None
    } else {
        Some(envs_spec()[app.de_index as int].0)
    })
    &&& oview(plan.display_manager) == (if envs_spec()[app.de_index as int].0 == "ninguno"@ {
        None
    } else {
        envs_spec()[app.de_index as int].3
    })
    &&& views(plan.services@) == system_services(plan.official@, oview(plan.display_manager))
    &&& views(plan.user_services@) == user_services(plan.official@)
    &&& oview(plan.locale) == checked_setting(app.sys_locale@, Setting::Locale)
    &&& oview(plan.timezone) == checked_setting(app.sys_timezone@, Setting::Timezone)
    &&& oview(plan.keymap) == checked_setting(app.sys_keymap@, Setting::Keymap)
    &&& oview(plan.hostname) == checked_setting(app.sys_hostname@, Setting::Hostname)
    &&& oview(plan.mirror_region) == nonempty_seq(app.sys_mirror_region@)
    &&& plan.enable_multilib == app.sys_multilib
    &&& plan.reboot_after == app.sys_reboot
    &&& plan.cleanup_orphans == app.sys_cleanup_orphans
    &&& plan.post_install@.len() == 0
}

impl App {
    /// The assistant at its welcome screen. The lists start from the catalog
    /// (each item marked installed when the system has it) and the settings
    /// form from the system's current settings, so that the user only
    /// touches what should change.
    pub fn new(sys_state: SystemStatus, update_notice: Option<String>) -> (app: App)
        ensures
            app.wf(),
            app.mode == Mode::Welcome,
            app.main_cursor == 0,
            app.de_index == 0,
            app.drivers@ == drivers_spec().map_values(
                |d: (Seq<char>, Seq<char>, Seq<Seq<char>>, bool)| d.3,
            ),
            forall|i: int|
                0 <= i < drivers_spec().len() ==> app.drivers_installed@[i] == all_installed(
                    sys_state,
                    #[trigger] drivers_spec()[i].2,
                ),
            item_views(app.official@) == catalog_items(extras_spec(), Source::Official, sys_state),
            item_views(app.aur@) == catalog_items(extras_spec(), Source::Aur, sys_state),
            app.list_cursor == 0,
            app.sys_locale@ == (match sys_state.locale {
                Some(s) => s@,
                None => Seq::<char>::empty(),
            }),
            app.sys_timezone@ == (match sys_state.timezone {
                Some(s) => s@,
                None => Seq::<char>::empty(),
            }),
            app.sys_keymap@ == (match sys_state.keymap {
                Some(s) => s@,
                None => Seq::<char>::empty(),
            }),
            app.sys_hostname@ == (match sys_state.hostname {
                Some(s) => s@,
                None => Seq::<char>::empty(),
            }),
            app.sys_multilib == sys_state.multilib_enabled,
            !app.sys_reboot,
            !app.sys_cleanup_orphans,
            app.sys_mirror_region@.len() == 0,
            app.update_notice == update_notice,
            !app.update_dismissed,
            app.preflight is None,
            app.estimate is None,
            app.search_source == Source::Official,
            app.search_results@.len() == 0,
            !app.typing,
            app.profiles@.len() == 0,
            app.sys_cursor == 0,
            app.sys_state == sys_state,
            app.search_input@.len() == 0,
            app.name_input@.len() == 0,
            app.status@ == "Usa ↑/↓ y Enter. En esta pantalla 'Instalar ahora' lanza todo."@,
    {
        let official = catalog_list(&sys_state, Source::Official);
        let aur = catalog_list(&sys_state, Source::Aur);
        let ds = drivers();
        let ghost dv = ds@.map_values(|d: crate::model::DriverBundle| driver_view(d));
        let mut checked: Vec<bool> = Vec::new();
        let mut installed: Vec<bool> = Vec::new();
        let mut i: usize = 0;
        while i < ds.len()
            invariant
                i <= ds.len(),
                dv == ds@.map_values(|d: crate::model::DriverBundle| driver_view(d)),
                dv == drivers_spec(),
                checked@.len() == i,
                installed@.len() == i,
                forall|k: int| 0 <= k < i ==> checked@[k] == (#[trigger] drivers_spec()[k]).3,
                forall|k: int|
                    0 <= k < i ==> installed@[k] == all_installed(
                        sys_state,
                        #[trigger] drivers_spec()[k].2,
                    ),
            decreases ds.len() - i,
        {
            assert(dv[i as int] == driver_view(ds@[i as int]));
            checked.push(ds[i].default_on);
            let b = all_installed_exec(&sys_state, &ds[i].packages);
            installed.push(b);
            i = i + 1;
        }
        assert(checked@ =~= drivers_spec().map_values(
            |d: (Seq<char>, Seq<char>, Seq<Seq<char>>, bool)| d.3,
        ));
        let sys_locale = value_or_empty(&sys_state.locale);
        let sys_timezone = value_or_empty(&sys_state.timezone);
        let sys_keymap = value_or_empty(&sys_state.keymap);
        let sys_hostname = value_or_empty(&sys_state.hostname);
        let sys_multilib = sys_state.multilib_enabled;
        let picker = PickerState::new("", Vec::new(), String::new(), PickerTarget::Locale);
        App {
            mode: Mode::Welcome,
            main_cursor: 0,
            de_index: 0,
            drivers: checked,
            drivers_installed: installed,
            official,
            aur,
            list_cursor: 0,
            status: owned("Usa ↑/↓ y Enter. En esta pantalla 'Instalar ahora' lanza todo."),
            sys_state,
            update_notice,
            update_dismissed: false,
            preflight: None,
            estimate: None,
            picker,
            search_source: Source::Official,
            search_input: String::new(),
            search_results: Vec::new(),
            typing: false,
            profiles: Vec::new(),
            name_input: String::new(),
            sys_cursor: 0,
            sys_locale,
            sys_timezone,
            sys_keymap,
            sys_hostname,
            sys_multilib,
            sys_reboot: false,
            sys_cleanup_orphans: false,
            sys_mirror_region: String::new(),
        }
    }

    /// Number of selected items of a list.
    pub fn count_selected(items: &Vec<PkgItem>) -> (n: usize)
        ensures
            n == selected_count(item_views(items@)),
    {
        let ghost iv = item_views(items@);
        let mut n: usize = 0;
        let mut i: usize = 0;
        assert(iv.take(0) =~= Seq::<(Seq<char>, Seq<char>, bool, bool)>::empty());
        while i < items.len()
            invariant
                i <= items.len(),
                iv == item_views(items@),
                n == selected_names(iv.take(i as int)).len(),
                n <= i,
            decreases items.len() - i,
        {
            proof {
                assert(iv.take(i + 1).drop_last() =~= iv.take(i as int));
                assert(iv.take(i + 1).last() == iv[i as int]);
            }
            if items[i].selected {
                n = n + 1;
            }
            i = i + 1;
        }
        assert(iv.take(items.len() as int) =~= iv);
        n
    }

    /// Number of checked drivers.
    pub fn count_drivers(&self) -> (n: usize)
        ensures
            n == self.drivers@.filter(|b: bool| b).len(),
    {
        let ghost d = self.drivers@;
        let mut n: usize = 0;
        let mut i: usize = 0;
        assert(d.take(0).filter(|b: bool| b) =~= Seq::<bool>::empty());
        while i < self.drivers.len()
            invariant
                i <= self.drivers.len(),
                d == self.drivers@,
                n == d.take(i as int).filter(|b: bool| b).len(),
                n <= i,
            decreases self.drivers.len() - i,
        {
            proof {
                assert(d.take(i + 1).drop_last() =~= d.take(i as int));
                reveal(Seq::filter);
                assert(d.take(i + 1).last() == d[i as int]);
            }
            if self.drivers[i] {
                n = n + 1;
            }
            i = i + 1;
        }
        assert(d.take(d.len() as int) =~= d);
        n
    }

    /// The plan the current selection describes: the environment's packages
    /// (none for "ninguno"), the checked drivers' and the selected official
    /// packages, sorted without repeats; the selected AUR packages, sorted
    /// without repeats; and the settings of the form that are filled in and
    /// valid.
    pub fn build_plan(&self) -> (plan: InstallPlan)
        requires
            self.wf(),
        ensures
            plan_built(*self, plan),

    {
        let envs = desktop_environments();
        let ghost ev = envs@.map_values(|e: crate::model::DesktopEnvironment| env_view(e));
        assert(ev[self.de_index as int] == env_view(envs@[self.de_index as int]));
        let de = &envs[self.de_index];
        let ghost e = envs_spec()[self.de_index as int];
        let is_none = str_eq(de.id, "ninguno");
        let mut official: Vec<String> = Vec::new();
        let mut aur: Vec<String> = Vec::new();
        if !is_none {
            let base = base_packages();
            push_strs(&mut official, &base);
            push_strs(&mut official, &de.packages);
            match de.display_manager {
                Some(dm) => {
                    let ghost before = official@;
                    official.push(owned(dm));
                    assert(views(official@) =~= views(before).push(dm@));
                },
                None => {},
            }
        }
        assert(views(official@) =~= env_packages(e));
        let ds = drivers();
        let ghost dv = ds@.map_values(|d: crate::model::DriverBundle| driver_view(d));
        let ghost env_part = views(official@);
        let mut i: usize = 0;
        while i < ds.len()
            invariant
                i <= ds.len(),
                dv == ds@.map_values(|d: crate::model::DriverBundle| driver_view(d)),
                dv == drivers_spec(),
                views(official@) == env_part + driver_packages(self.drivers@, i as nat),
            decreases ds.len() - i,
        {
            assert(dv[i as int] == driver_view(ds@[i as int]));
            let on = i < self.drivers.len() && self.drivers[i];
            if on {
                push_strs(&mut official, &ds[i].packages);
            }
            proof {
                assert(driver_packages(self.drivers@, (i + 1) as nat) == driver_packages(
                    self.drivers@,
                    i as nat,
                ) + if on {
                    drivers_spec()[i as int].2
                } else {
                    Seq::<Seq<char>>::empty()
                });
                if !on {
                    assert(driver_packages(self.drivers@, i as nat) + Seq::<Seq<char>>::empty()
                        =~= driver_packages(self.drivers@, i as nat));
                }
                assert(views(official@) =~= env_part + driver_packages(self.drivers@, (i + 1) as nat));
            }
            i = i + 1;
        }
        push_names(&mut official, &self.official);
        push_names(&mut aur, &self.aur);
        assert(views(official@) =~= official_raw(*self));
        let official = sort_dedup_strings(&official);
        let aur = sort_dedup_strings(&aur);
        let de_id = if is_none {
            None
        } else {
            Some(owned(de.id))
        };
        let dm = if is_none {
            None
        } else {
            match de.display_manager {
                Some(d) => Some(owned(d)),
                None => None,
            }
        };
        let mut plan = InstallPlan::new(de_id, dm, official, aur);
        plan.locale = checked(self.sys_locale.as_str(), Setting::Locale);
        plan.timezone = checked(self.sys_timezone.as_str(), Setting::Timezone);
        plan.keymap = checked(self.sys_keymap.as_str(), Setting::Keymap);
        plan.hostname = checked(self.sys_hostname.as_str(), Setting::Hostname);
        plan.mirror_region = nonempty(self.sys_mirror_region.as_str());
        plan.enable_multilib = self.sys_multilib;
        plan.reboot_after = self.sys_reboot;
        plan.cleanup_orphans = self.sys_cleanup_orphans;
        plan
    }

    /// Short summary of the system settings for the main menu: the fields
    /// that hold something (even when invalid), the active toggles and
    /// "limpiar huerfanos" when orphans are to be removed, comma-separated.
    pub fn system_summary(&self) -> (s: String)
        ensures
            s@ == join_seq(
                system_settings(
                    nonempty_seq(self.sys_locale@),
                    nonempty_seq(self.sys_timezone@),
                    nonempty_seq(self.sys_keymap@),
                    nonempty_seq(self.sys_hostname@),
                    nonempty_seq(self.sys_mirror_region@),
                    self.sys_multilib,
                    self.sys_reboot,
                    SystemLabelStyle::Short,
                ) + if self.sys_cleanup_orphans {
                    seq!["limpiar huerfanos"@]
                } else {
                    Seq::<Seq<char>>::empty()
                },
                ", "@,
            ),
    {
        let locale = nonempty(self.sys_locale.as_str());
        let timezone = nonempty(self.sys_timezone.as_str());
        let keymap = nonempty(self.sys_keymap.as_str());
        let hostname = nonempty(self.sys_hostname.as_str());
        let mirror = nonempty(self.sys_mirror_region.as_str());
        let mut parts = format_system_settings(
            as_text(&locale),
            as_text(&timezone),
            as_text(&keymap),
            as_text(&hostname),
            as_text(&mirror),
            self.sys_multilib,
            self.sys_reboot,
            SystemLabelStyle::Short,
        );
        let ghost before = views(parts@);
        if self.sys_cleanup_orphans {
            parts.push(owned("limpiar huerfanos"));
            assert(views(parts@) =~= before + seq!["limpiar huerfanos"@]);
        } else {
            assert(views(parts@) =~= before + Seq::<Seq<char>>::empty());
        }
        join(parts.as_slice(), ", ")
    }
}

/// The text of an optional string, borrowed.
fn as_text(o: &Option<String>) -> (r: Option<&str>)
    ensures
        crate::model::sview(r) == oview(*o),
{
    match o {
        Some(s) => Some(s.as_str()),
        None => None,
    }
}


// ----------------------------------------------------------------------
// Editing the selections
// ----------------------------------------------------------------------

/// Some item of `items` has the name `n`.
pub open spec fn items_have(items: Seq<(Seq<char>, Seq<char>, bool, bool)>, n: Seq<char>) -> bool {
    exists|k: int| 0 <= k < items.len() && (#[trigger] items[k]).0 == n
}

/// The items of a list with their selection set to whether their name is
/// among `names`.
pub open spec fn reselected(
    items: Seq<(Seq<char>, Seq<char>, bool, bool)>,
    names: Seq<Seq<char>>,
) -> Seq<(Seq<char>, Seq<char>, bool, bool)> {
    items.map_values(
        |it: (Seq<char>, Seq<char>, bool, bool)| (it.0, it.1, names.contains(it.0), it.3),
    )
}

/// The names of `names` that no item has, in order, as new selected items.
pub open spec fn added_items(
    names: Seq<Seq<char>>,
    items: Seq<(Seq<char>, Seq<char>, bool, bool)>,
    src: Source,
    sys: SystemStatus,
) -> Seq<(Seq<char>, Seq<char>, bool, bool)>
    decreases names.len(),
{
    if names.len() == 0 {
        Seq::empty()
    } else if items_have(items, names.last()) {
        added_items(names.drop_last(), items, src, sys)
    } else {
        added_items(names.drop_last(), items, src, sys).push(
            (names.last(), "(del perfil)"@, true, installed_flag(sys, names.last(), src)),
        )
    }
}

/// The list after a profile's names were merged into it.
pub open spec fn merged(
    items: Seq<(Seq<char>, Seq<char>, bool, bool)>,
    names: Seq<Seq<char>>,
    src: Source,
    sys: SystemStatus,
) -> Seq<(Seq<char>, Seq<char>, bool, bool)> {
    reselected(items, names) + added_items(names, items, src, sys)
}

proof fn lemma_added_items_named(
    names: Seq<Seq<char>>,
    items: Seq<(Seq<char>, Seq<char>, bool, bool)>,
    src: Source,
    sys: SystemStatus,
)
    ensures
        forall|k: int|
            0 <= k < added_items(names, items, src, sys).len() ==> names.contains(
                (#[trigger] added_items(names, items, src, sys)[k]).0,
            ) && added_items(names, items, src, sys)[k].2,
        forall|n: Seq<char>| names.contains(n) && !items_have(items, n) ==> items_have(
            #[trigger] added_items(names, items, src, sys),
            n,
        ),
    decreases names.len(),
{
    if names.len() > 0 {
        let p = names.drop_last();
        lemma_added_items_named(p, items, src, sys);
        let a = added_items(p, items, src, sys);
        let r = added_items(names, items, src, sys);
        assert forall|k: int| 0 <= k < r.len() implies names.contains((#[trigger] r[k]).0)
            && r[k].2 by {
            if k < a.len() {
                assert(r[k] == a[k]);
                let w = choose|w: int| 0 <= w < p.len() && p[w] == a[k].0;
                assert(names[w] == p[w]);
            } else {
                assert(names[names.len() - 1] == names.last());
            }
        }
        assert forall|n: Seq<char>| names.contains(n) && !items_have(items, n) implies items_have(
            #[trigger] added_items(names, items, src, sys),
            n,
        ) by {
            let w = choose|w: int| 0 <= w < names.len() && names[w] == n;
            if w < names.len() - 1 {
                assert(p[w] == n);
                assert(p.contains(n));
                let k = choose|k: int| 0 <= k < a.len() && (#[trigger] a[k]).0 == n;
                assert(r[k] == a[k]);
            } else {
                assert(r[r.len() - 1].0 == n);
            }
        }
    }
}

/// Merging a profile's names selects exactly those names: every item ends
/// selected if and only if its name is in the profile, and every name of the
/// profile has an item.
pub proof fn lemma_merge_selects_exactly(
    items: Seq<(Seq<char>, Seq<char>, bool, bool)>,
    names: Seq<Seq<char>>,
    src: Source,
    sys: SystemStatus,
)
    ensures
        forall|k: int|
            0 <= k < merged(items, names, src, sys).len() ==> ((#[trigger] merged(
                items,
                names,
                src,
                sys,
            )[k]).2 <==> names.contains(merged(items, names, src, sys)[k].0)),
        forall|n: Seq<char>| #[trigger] names.contains(n) ==> items_have(merged(items, names, src, sys), n),
{
    lemma_added_items_named(names, items, src, sys);
    let re = reselected(items, names);
    let ad = added_items(names, items, src, sys);
    let m = merged(items, names, src, sys);
    assert forall|k: int| 0 <= k < m.len() implies ((#[trigger] m[k]).2 <==> names.contains(
        m[k].0,
    )) by {
        if k < re.len() {
            assert(m[k] == re[k]);
        } else {
            assert(m[k] == ad[k - re.len()]);
        }
    }
    assert forall|n: Seq<char>| #[trigger] names.contains(n) implies items_have(m, n) by {
        if items_have(items, n) {
            let k = choose|k: int| 0 <= k < items.len() && (#[trigger] items[k]).0 == n;
            assert(m[k] == re[k]);
        } else {
            let k = choose|k: int| 0 <= k < ad.len() && (#[trigger] ad[k]).0 == n;
            assert(m[re.len() + k] == ad[k]);
        }
    }
}

fn names_contain(names: &Vec<String>, n: &str) -> (b: bool)
    ensures
        b == views(names@).contains(n@),
{
    proof {
        crate::text::lemma_list_has_views(names@, n@);
    }
    crate::text::list_contains(names.as_slice(), n)
}

/// Syncs a list with a profile's package names: the items of the list end
/// selected exactly when the profile names them, and the names the list does
/// not have are added, selected, with "(del perfil)" as description and
/// marked installed when the system has them from `src`.
pub fn merge_profile_into(
    items: &mut Vec<PkgItem>,
    names: &Vec<String>,
    src: Source,
    sys: &SystemStatus,
)
    ensures
        item_views(final(items)@) == merged(item_views(old(items)@), views(names@), src, *sys),
{
    let ghost orig = item_views(items@);
    let ghost nv = views(names@);
    let mut i: usize = 0;
    while i < items.len()
        invariant
            i <= items.len(),
            items@.len() == orig.len(),
            nv == views(names@),
            forall|k: int| 0 <= k < i ==> item_views(items@)[k] == reselected(orig, nv)[k],
            forall|k: int| i <= k < items@.len() ==> item_views(items@)[k] == orig[k],
        decreases items.len() - i,
    {
        let on = names_contain(names, items[i].name.as_str());
        let mut it = items.remove(i);
        it.selected = on;
        items.insert(i, it);
        i = i + 1;
    }
    assert(item_views(items@) =~= reselected(orig, nv));
    let ghost re = item_views(items@);
    let n0 = items.len();
    let mut j: usize = 0;
    assert(nv.take(0) =~= Seq::<Seq<char>>::empty());
    while j < names.len()
        invariant
            j <= names.len(),
            nv == views(names@),
            item_views(items@) == re + added_items(nv.take(j as int), orig, src, *sys),
            re == reselected(orig, nv),
            n0 == re.len(),
            re.len() == orig.len(),
            n0 <= items@.len(),
        decreases names.len() - j,
    {
        proof {
            assert(nv.take(j + 1).drop_last() =~= nv.take(j as int));
            assert(nv.take(j + 1).last() == nv[j as int]);
        }
        let n = names[j].as_str();
        let known = listed_before(items, n0, n);
        proof {
            assert(items_have(orig, nv[j as int]) == known) by {
                if known {
                    let k = choose|k: int| 0 <= k < re.len() && (#[trigger] item_views(items@)[k]).0 == n@;
                    assert(item_views(items@)[k] == re[k]);
                    assert(orig[k].0 == n@);
                }
                if items_have(orig, nv[j as int]) {
                    let k = choose|k: int| 0 <= k < orig.len() && (#[trigger] orig[k]).0 == n@;
                    assert(item_views(items@)[k] == re[k]);
                }
            }
        }
        if !known {
            let installed = installed_in(sys, n, src);
            let ghost before = item_views(items@);
            items.push(
                PkgItem {
                    name: names[j].clone(),
                    description: owned("(del perfil)"),
                    selected: true,
                    installed,
                },
            );
            assert(item_views(items@) =~= before.push(
                (nv[j as int], "(del perfil)"@, true, installed),
            ));
        }
        j = j + 1;
    }
    assert(nv.take(names.len() as int) =~= nv);
}

/// Whether one of the first `n` items has the name `name`.
fn listed_before(items: &Vec<PkgItem>, n: usize, name: &str) -> (b: bool)
    requires
        n <= items@.len(),
    ensures
        b == exists|k: int| 0 <= k < n && (#[trigger] item_views(items@)[k]).0 == name@,
{
    let mut i: usize = 0;
    while i < n
        invariant
            i <= n,
            n <= items@.len(),
            forall|k: int| 0 <= k < i ==> (#[trigger] item_views(items@)[k]).0 != name@,
        decreases n - i,
    {
        if str_eq(items[i].name.as_str(), name) {
            assert(item_views(items@)[i as int].0 == name@);
            return true;
        }
        i = i + 1;
    }
    false
}

/// Index of the first item named `n`, if any.
pub open spec fn first_named(items: Seq<(Seq<char>, Seq<char>, bool, bool)>, n: Seq<char>) -> Option<
    int,
>
    decreases items.len(),
{
    if items.len() == 0 {
        None
    } else if items[0].0 == n {
        Some(0)
    } else {
        match first_named(items.drop_first(), n) {
            Some(k) => Some(k + 1),
            None => None,
        }
    }
}

proof fn lemma_first_named(items: Seq<(Seq<char>, Seq<char>, bool, bool)>, n: Seq<char>)
    ensures
        match first_named(items, n) {
            Some(k) => 0 <= k < items.len() && items[k].0 == n && forall|j: int|
                0 <= j < k ==> (#[trigger] items[j]).0 != n,
            None => forall|j: int| 0 <= j < items.len() ==> (#[trigger] items[j]).0 != n,
        },
    decreases items.len(),
{
    if items.len() > 0 && items[0].0 != n {
        lemma_first_named(items.drop_first(), n);
        match first_named(items.drop_first(), n) {
            Some(k) => {
                assert forall|j: int| 0 <= j < k + 1 implies (#[trigger] items[j]).0 != n by {
                    if j > 0 {
                        assert(items[j] == items.drop_first()[j - 1]);
                    }
                }
            },
            None => {
                assert forall|j: int| 0 <= j < items.len() implies (#[trigger] items[j]).0 != n by {
                    if j > 0 {
                        assert(items[j] == items.drop_first()[j - 1]);
                    }
                }
            },
        }
    }
}

/// The list after toggling the package `name`: the first item with that
/// name flips its selection; without one, a selected item is added.
pub open spec fn toggled(
    items: Seq<(Seq<char>, Seq<char>, bool, bool)>,
    name: Seq<char>,
    desc: Seq<char>,
    installed: bool,
) -> Seq<(Seq<char>, Seq<char>, bool, bool)> {
    match first_named(items, name) {
        Some(k) => items.update(k, (items[k].0, items[k].1, !items[k].2, items[k].3)),
        None => items.push((name, desc, true, installed)),
    }
}

/// Toggling the same package twice, when the list has it, leaves the list
/// as it was.
pub proof fn lemma_toggle_twice(
    items: Seq<(Seq<char>, Seq<char>, bool, bool)>,
    name: Seq<char>,
    desc: Seq<char>,
    installed: bool,
)
    requires
        first_named(items, name) is Some,
    ensures
        toggled(toggled(items, name, desc, installed), name, desc, installed) == items,
{
    lemma_first_named(items, name);
    let k = first_named(items, name)->0;
    let once = toggled(items, name, desc, installed);
    lemma_first_named(once, name);
    match first_named(once, name) {
        Some(k2) => {
            if k2 < k {
                assert(once[k2] == items[k2]);
            } else if k2 > k {
                assert(once[k].0 == name);
            }
            assert(k2 == k);
            assert(toggled(once, name, desc, installed) =~= items);
        },
        None => {
            assert(once[k].0 == name);
        },
    }
}

/// Adds or toggles a package in a list by name; returns whether it ended
/// selected.
pub fn toggle_into(items: &mut Vec<PkgItem>, name: &str, desc: &str, installed: bool) -> (on: bool)
    ensures
        item_views(final(items)@) == toggled(item_views(old(items)@), name@, desc@, installed),
        on == match first_named(item_views(old(items)@), name@) {
            Some(k) => !item_views(old(items)@)[k].2,
            None => true,
        },
{
    let ghost iv = item_views(items@);
    proof {
        lemma_first_named(iv, name@);
    }
    let mut i: usize = 0;
    while i < items.len()
        invariant
            i <= items.len(),
            iv == item_views(items@),
            iv == item_views(old(items)@),
            forall|j: int| 0 <= j < i ==> (#[trigger] iv[j]).0 != name@,
            match first_named(iv, name@) {
                Some(k) => 0 <= k < iv.len() && iv[k].0 == name@ && forall|j: int|
                    0 <= j < k ==> (#[trigger] iv[j]).0 != name@,
                None => forall|j: int| 0 <= j < iv.len() ==> (#[trigger] iv[j]).0 != name@,
            },
        decreases items.len() - i,
    {
        if str_eq(items[i].name.as_str(), name) {
            assert(iv[i as int].0 == name@);
            assert(first_named(iv, name@) == Some(i as int)) by {
                match first_named(iv, name@) {
                    Some(k) => {
                        if k < i {
                            assert(iv[k].0 != name@);
                        } else if k > i {
                            assert(iv[i as int].0 != name@);
                        }
                    },
                    None => {
                        assert(iv[i as int].0 != name@);
                    },
                }
            }
            let mut it = items.remove(i);
            it.selected = !it.selected;
            let on = it.selected;
            items.insert(i, it);
            assert(item_views(items@) =~= iv.update(
                i as int,
                (iv[i as int].0, iv[i as int].1, !iv[i as int].2, iv[i as int].3),
            ));
            return on;
        }
        i = i + 1;
    }
    assert(first_named(iv, name@) is None) by {
        match first_named(iv, name@) {
            Some(k) => {
                assert(iv[k].0 != name@);
            },
            None => {},
        }
    }
    items.push(
        PkgItem { name: owned(name), description: owned(desc), selected: true, installed },
    );
    assert(item_views(items@) =~= iv.push((name@, desc@, true, installed)));
    true
}

/// Where a list cursor goes on a key: arrows and `j`/`k` move one step and
/// wrap around, Home/End jump to the ends, PageUp/PageDown move ten steps
/// without leaving the list; an empty list keeps the cursor.
pub open spec fn moved(c: int, len: int, key: Key) -> int {
    if len == 0 {
        c
    } else {
        match key {
            Key::Up => (c + len - 1) % len,
            Key::Char(ch) => if ch == 'k' {
                (c + len - 1) % len
            } else if ch == 'j' {
                (c + 1) % len
            } else {
                c
            },
            Key::Down => (c + 1) % len,
            Key::Home => 0,
            Key::End => len - 1,
            Key::PageUp => if c >= 10 {
                c - 10
            } else {
                0
            },
            Key::PageDown => if c + 10 < len - 1 {
                c + 10
            } else {
                len - 1
            },
            _ => c,
        }
    }
}

/// A cursor inside a non-empty list stays inside it, whatever the key.
pub proof fn lemma_moved_in_range(c: int, len: int, key: Key)
    requires
        0 <= c < len,
    ensures
        0 <= moved(c, len, key) < len,
{
}

/// Common list navigation: arrows, `j`/`k`, Home/End and PageUp/PageDown.
pub fn move_cursor(cursor: &mut usize, len: usize, key: Key)
    ensures
        *final(cursor) == moved(*old(cursor) as int, len as int, key),
{
    if len == 0 {
        return;
    }
    let c = *cursor;
    let back = if c % len == 0 {
        len - 1
    } else {
        c % len - 1
    };
    let fwd = if c % len == len - 1 {
        0
    } else {
        c % len + 1
    };
    assert(back == (c + len - 1) % (len as int)) by (nonlinear_arith)
        requires
            len > 0,
            back == (if c % len == 0 {
                len - 1
            } else {
                c % len - 1
            }),
    ;
    assert(fwd == (c + 1) % (len as int)) by (nonlinear_arith)
        requires
            len > 0,
            fwd == (if c % len == len - 1 {
                0
            } else {
                c % len + 1
            }),
    ;
    match key {
        Key::Up => *cursor = back,
        Key::Char(ch) => {
            if ch == 'k' {
                *cursor = back;
            } else if ch == 'j' {
                *cursor = fwd;
            }
        },
        Key::Down => *cursor = fwd,
        Key::Home => *cursor = 0,
        Key::End => *cursor = len - 1,
        Key::PageUp => *cursor = if c >= 10 {
            c - 10
        } else {
            0
        },
        Key::PageDown => *cursor = if len > 11 && c < len - 11 {
            c + 10
        } else {
            len - 1
        },
        _ => {},
    }
}

/// Index of the first text of `ids` equal to `id`.
pub open spec fn first_index(ids: Seq<Seq<char>>, id: Seq<char>) -> Option<int>
    decreases ids.len(),
{
    if ids.len() == 0 {
        None
    } else if ids[0] == id {
        Some(0)
    } else {
        match first_index(ids.drop_first(), id) {
            Some(k) => Some(k + 1),
            None => None,
        }
    }
}

/// The ids of the desktop environments, in catalog order.
pub open spec fn env_ids() -> Seq<Seq<char>> {
    envs_spec().map_values(|e: (Seq<char>, Seq<char>, Seq<Seq<char>>, Option<Seq<char>>)| e.0)
}

proof fn lemma_first_index(ids: Seq<Seq<char>>, id: Seq<char>)
    ensures
        match first_index(ids, id) {
            Some(k) => 0 <= k < ids.len() && ids[k] == id && forall|j: int|
                0 <= j < k ==> ids[j] != id,
            None => forall|j: int| 0 <= j < ids.len() ==> ids[j] != id,
        },
    decreases ids.len(),
{
    if ids.len() > 0 && ids[0] != id {
        lemma_first_index(ids.drop_first(), id);
        assert forall|j: int| 1 <= j < ids.len() implies ids[j] == ids.drop_first()[j - 1] by {}
    }
}

fn env_index(id: &str) -> (r: Option<usize>)
    ensures
        match r {
            Some(k) => first_index(env_ids(), id@) == Some(k as int),
            None => first_index(env_ids(), id@) is None,
        },
{
    let envs = desktop_environments();
    let ghost ids = env_ids();
    proof {
        lemma_first_index(ids, id@);
        assert forall|k: int| 0 <= k < envs@.len() implies ids[k] == envs@[k].id@ by {
            assert(envs@.map_values(|e: crate::model::DesktopEnvironment| env_view(e))[k]
                == env_view(envs@[k]));
        }
    }
    let mut i: usize = 0;
    while i < envs.len()
        invariant
            i <= envs.len(),
            envs@.len() == ids.len(),
            ids == env_ids(),
            forall|k: int| 0 <= k < envs@.len() ==> ids[k] == (#[trigger] envs@[k]).id@,
            forall|k: int| 0 <= k < i ==> ids[k] != id@,
            match first_index(ids, id@) {
                Some(k) => 0 <= k < ids.len() && ids[k] == id@ && forall|j: int|
                    0 <= j < k ==> ids[j] != id@,
                None => forall|j: int| 0 <= j < ids.len() ==> ids[j] != id@,
            },
        decreases envs.len() - i,
    {
        if str_eq(envs[i].id, id) {
            assert(ids[i as int] == id@);
            proof {
                match first_index(ids, id@) {
                    Some(k) => {
                        if k > i {
                            assert(ids[i as int] != id@);
                        }
                    },
                    None => {},
                }
            }
            return Some(i);
        }
        i = i + 1;
    }
    None
}

/// Work the assistant needs done outside before it can go on.
#[derive(Debug)]
pub enum Request {
    /// Nothing: draw the next frame and read the next key.
    Nothing,
    /// The assistant is over.
    Finish(Outcome),
    /// Search `source` for `term`; the answer goes to `search_done`.
    Search { source: Source, term: String },
    /// Save this profile; the answer goes to `profile_saved`.
    SaveProfile(Profile),
    /// List the saved profiles; the answer goes to `profiles_listed`.
    ListProfiles,
    /// Load the profile with this name; the answer goes to `profile_loaded`.
    LoadProfile(String),
    /// Load the option list of a picker; the answer goes to `open_picker`.
    PickerOptions(PickerTarget),
    /// Run the pre-flight checks for the current plan; the answer goes to
    /// `preflight_done`.
    RunPreflight,
}

/// The character view of an optional string, empty when absent.
pub open spec fn text_or_empty(o: Option<String>) -> Seq<char> {
    match o {
        Some(s) => s@,
        None => Seq::empty(),
    }
}

/// The screen a picker returns to: the main menu for the mirror picker
/// (opened from there), the settings form for the others.
pub open spec fn return_mode(t: PickerTarget) -> Mode {
    match t {
        PickerTarget::Mirror => Mode::Main,
        _ => Mode::System,
    }
}

/// The screen of a picker.
pub open spec fn picker_mode(t: PickerTarget) -> Mode {
    match t {
        PickerTarget::Locale => Mode::PickLocale,
        PickerTarget::Timezone => Mode::PickTimezone,
        PickerTarget::Keymap => Mode::PickKeymap,
        PickerTarget::Mirror => Mode::PickMirror,
    }
}

/// Label of a search source.
pub open spec fn source_label_spec(s: Source) -> Seq<char> {
    match s {
        Source::Official => "Oficial (pacman)"@,
        Source::Aur => "AUR (yay)"@,
    }
}

/// The screen a picker returns to.
pub fn picker_return_mode(target: PickerTarget) -> (m: Mode)
    ensures
        m == return_mode(target),
{
    match target {
        PickerTarget::Mirror => Mode::Main,
        _ => Mode::System,
    }
}

/// Readable name of a search source.
pub fn source_label(s: Source) -> (r: &'static str)
    ensures
        r@ == source_label_spec(s),
{
    match s {
        Source::Official => "Oficial (pacman)",
        Source::Aur => "AUR (yay)",
    }
}

/// The choices two states share: environment, drivers, package selections
/// and the settings form.
pub open spec fn same_choices(a: App, b: App) -> bool {
    &&& a.de_index == b.de_index
    &&& a.drivers@ == b.drivers@
    &&& a.drivers_installed@ == b.drivers_installed@
    &&& item_views(a.official@) == item_views(b.official@)
    &&& item_views(a.aur@) == item_views(b.aur@)
    &&& a.sys_locale@ == b.sys_locale@
    &&& a.sys_timezone@ == b.sys_timezone@
    &&& a.sys_keymap@ == b.sys_keymap@
    &&& a.sys_hostname@ == b.sys_hostname@
    &&& a.sys_mirror_region@ == b.sys_mirror_region@
    &&& a.sys_multilib == b.sys_multilib
    &&& a.sys_reboot == b.sys_reboot
    &&& a.sys_cleanup_orphans == b.sys_cleanup_orphans
}

fn drop_last_char(s: &mut String)
    ensures
        final(s)@ == (if old(s)@.len() == 0 {
            old(s)@
        } else {
            old(s)@.drop_last()
        }),
{
    let v = chars_of(s.as_str());
    if v.len() > 0 {
        let w = crate::text::slice_range(v.as_slice(), 0, v.len() - 1);
        *s = crate::text::string_of(w.as_slice());
        assert(w@ =~= v@.drop_last());
    }
}

fn add_char(s: &mut String, c: char)
    ensures
        final(s)@ == old(s)@.push(c),
{
    crate::text::push_char(s, c);
}

/// What `App::handle_main` does (`pre` before, `post` after).
pub open spec fn main_step(pre: App, post: App, key: Key, r: Request) -> bool {
    &&& same_choices(post, pre)
    &&& post.main_cursor == moved(pre.main_cursor as int, MENU_LEN as int, key)
    &&& ((key == Key::Char('q') || key == Key::Esc)
        ==> r matches Request::Finish(Outcome::Cancelled))
    &&& key == Key::Enter && post.main_cursor == MENU_DESKTOP
        ==> post.mode == Mode::Desktop && post.list_cursor == pre.de_index
    &&& key == Key::Enter && post.main_cursor == MENU_DRIVERS
        ==> post.mode == Mode::Drivers && post.list_cursor == 0
    &&& key == Key::Enter && post.main_cursor == MENU_OFFICIAL
        ==> post.mode == Mode::Official && post.list_cursor == 0
    &&& key == Key::Enter && post.main_cursor == MENU_AUR
        ==> post.mode == Mode::Aur && post.list_cursor == 0
    &&& key == Key::Enter && post.main_cursor == MENU_SYSTEM
        ==> post.mode == Mode::System && post.sys_cursor == 0
    &&& (key == Key::Enter && post.main_cursor == MENU_MIRROR
        ==> r matches Request::PickerOptions(PickerTarget::Mirror))
    &&& key == Key::Enter && post.main_cursor == MENU_SEARCH
        ==> post.mode == Mode::Search && post.typing && post.search_results@.len() == 0
    &&& (key == Key::Enter && post.main_cursor == MENU_LOAD ==> r matches Request::ListProfiles)
    &&& key == Key::Enter && post.main_cursor == MENU_SAVE
        ==> post.mode == Mode::SaveProfile && post.typing && post.name_input@.len() == 0
    &&& key == Key::Enter && post.main_cursor == MENU_INSTALL ==> (if pre.plan_empty() {
        post.mode == pre.mode
    } else {
        post.mode == Mode::Review && post.preflight is None && post.estimate is None
    })
    &&& (key == Key::Enter && post.main_cursor == MENU_QUIT
        ==> r matches Request::Finish(Outcome::Cancelled))
    &&& (!(key == Key::Char('q') || key == Key::Esc || key == Key::Enter)
        ==> (r matches Request::Nothing) && post.mode == pre.mode)
    &&& post.status@ == (if key != Key::Enter {
        pre.status@
    } else if post.main_cursor == MENU_DRIVERS {
        "Marca tu GPU y el microcodigo de tu CPU."@
    } else if post.main_cursor == MENU_SYSTEM {
        "Rellena lo que quieras configurar (vacio = no tocar)."@
    } else if post.main_cursor == MENU_SEARCH {
        "Tab cambia oficial/AUR. Escribe y Enter para buscar."@
    } else if post.main_cursor == MENU_SAVE {
        "Escribe un nombre y Enter para guardar."@
    } else if post.main_cursor == MENU_INSTALL {
        if pre.plan_empty() {
            "Nada que instalar: elige un entorno o marca paquetes."@
        } else {
            "Revisa el plan. Enter confirma, Esc vuelve al menu."@
        }
    } else {
        pre.status@
    })
    &&& key == Key::Enter && (post.main_cursor == MENU_MIRROR || post.main_cursor == MENU_LOAD
        || post.main_cursor == MENU_QUIT) ==> post.mode == pre.mode && post.typing == pre.typing
    &&& key == Key::Enter && (post.main_cursor == MENU_DESKTOP || post.main_cursor == MENU_DRIVERS
        || post.main_cursor == MENU_OFFICIAL || post.main_cursor == MENU_AUR || post.main_cursor
        == MENU_SYSTEM || post.main_cursor == MENU_INSTALL) ==> post.typing == pre.typing
    &&& key != Key::Enter ==> post.typing == pre.typing
    &&& (key == Key::Enter && !(post.main_cursor == MENU_MIRROR || post.main_cursor == MENU_LOAD
        || post.main_cursor == MENU_QUIT) ==> r matches Request::Nothing)
}

/// What `App::handle_desktop` does (`pre` before, `post` after).
pub open spec fn desktop_step(pre: App, post: App, key: Key) -> bool {
    &&& post.list_cursor == moved(pre.list_cursor as int, envs_spec().len() as int, key)
    &&& post.list_cursor < envs_spec().len()
    &&& (key == Key::Esc || key == Key::Char('q'))
        ==> post.mode == Mode::Main && post.de_index == pre.de_index
    &&& (key == Key::Enter || key == Key::Char(' ')) ==> post.mode == Mode::Main && post.de_index
        == post.list_cursor && post.status@ == "Entorno: "@ + envs_spec()[post.de_index as int].1
    &&& !(key == Key::Esc || key == Key::Char('q') || key == Key::Enter || key == Key::Char(' '))
        ==> post.mode == pre.mode && post.de_index == pre.de_index
    &&& post.drivers@ == pre.drivers@
    &&& post.drivers_installed@ == pre.drivers_installed@
    &&& item_views(post.official@) == item_views(pre.official@)
    &&& item_views(post.aur@) == item_views(pre.aur@)
    &&& !(key == Key::Enter || key == Key::Char(' ')) ==> post.status@ == pre.status@
}

/// What `App::handle_drivers` does (`pre` before, `post` after).
pub open spec fn drivers_step(pre: App, post: App, key: Key) -> bool {
    &&& post.list_cursor == moved(pre.list_cursor as int, drivers_spec().len() as int, key)
    &&& (key == Key::Esc || key == Key::Char('q')) ==> post.mode == Mode::Main
    &&& post.drivers@ == (if key == Key::Char(' ') && post.list_cursor < pre.drivers@.len() {
        pre.drivers@.update(post.list_cursor as int, !pre.drivers@[post.list_cursor as int])
    } else {
        pre.drivers@
    })
    &&& !(key == Key::Esc || key == Key::Char('q')) ==> post.mode == pre.mode
    &&& post.de_index == pre.de_index
    &&& item_views(post.official@) == item_views(pre.official@)
    &&& item_views(post.aur@) == item_views(pre.aur@)
    &&& post.status@ == pre.status@
}

/// What `App::handle_packages` does (`pre` before, `post` after).
pub open spec fn packages_step(pre: App, post: App, key: Key, source: Source) -> bool {
    &&& ({
        let before = match source {
            Source::Official => item_views(pre.official@),
            Source::Aur => item_views(pre.aur@),
        };
        let after = match source {
            Source::Official => item_views(post.official@),
            Source::Aur => item_views(post.aur@),
        };
        let c = post.list_cursor;
        &&& c == moved(pre.list_cursor as int, before.len() as int, key)
        &&& after == (if key == Key::Char(' ') && c < before.len() {
            before.update(
                c as int,
                (before[c as int].0, before[c as int].1, !before[c as int].2, before[c as int].3),
            )
        } else {
            before
        })
    })
    &&& source == Source::Official ==> item_views(post.aur@) == item_views(pre.aur@)
    &&& source == Source::Aur ==> item_views(post.official@) == item_views(pre.official@)
    &&& (key == Key::Esc || key == Key::Char('q')) ==> post.mode == Mode::Main
    &&& !(key == Key::Esc || key == Key::Char('q')) ==> post.mode == pre.mode
    &&& post.de_index == pre.de_index
    &&& post.drivers@ == pre.drivers@
    &&& post.status@ == pre.status@
}

/// What `App::handle_system` does (`pre` before, `post` after).
pub open spec fn system_step(pre: App, post: App, key: Key, r: Request) -> bool {
    &&& post.sys_cursor == moved(pre.sys_cursor as int, SYS_FIELDS as int, key)
    &&& (key == Key::Esc || key == Key::Char('q')) ==> post.mode == Mode::Main
    &&& post.sys_multilib == (pre.sys_multilib != (key == Key::Char(' ') && post.sys_cursor == SYS_MULTILIB))
    &&& post.sys_reboot == (pre.sys_reboot != (key == Key::Char(' ') && post.sys_cursor == SYS_REBOOT))
    &&& post.sys_cleanup_orphans == (pre.sys_cleanup_orphans != (key == Key::Char(' ') && post.sys_cursor == SYS_CLEANUP))
    &&& ((key == Key::Enter || key == Key::Char('i')) ==> match field_target(post.sys_cursor) {
        Some(t) => r matches Request::PickerOptions(t2) && t2 == t,
        None => (r matches Request::Nothing) && (post.sys_cursor == 3 ==> post.typing),
    })
    &&& (!(key == Key::Enter || key == Key::Char('i')) ==> r matches Request::Nothing)
    &&& post.de_index == pre.de_index
    &&& post.drivers@ == pre.drivers@
    &&& item_views(post.official@) == item_views(pre.official@)
    &&& item_views(post.aur@) == item_views(pre.aur@)
    &&& post.sys_locale@ == pre.sys_locale@
    &&& post.sys_timezone@ == pre.sys_timezone@
    &&& post.sys_keymap@ == pre.sys_keymap@
    &&& post.sys_hostname@ == pre.sys_hostname@
    &&& post.sys_mirror_region@ == pre.sys_mirror_region@
    &&& post.status@ == (if (key == Key::Enter || key == Key::Char('i')) && post.sys_cursor == 3 {
        "Editando hostname. Enter confirma, Esc cancela."@
    } else {
        pre.status@
    })
    &&& !(key == Key::Esc || key == Key::Char('q')) ==> post.mode == pre.mode
}

/// What `App::handle_picker` does (`pre` before, `post` after).
pub open spec fn picker_step(pre: App, post: App, key: Key) -> bool {
    &&& ({
        let n = filtered_spec(views(pre.picker.options@), pre.picker.filter@).len();
        let c = pre.picker.cursor;
        match key {
            Key::Backspace => post.picker.cursor == 0 && post.picker.filter@ == (if pre.picker.filter@.len()
                == 0 {
                pre.picker.filter@
            } else {
                pre.picker.filter@.drop_last()
            }),
            Key::Char(ch) => post.picker.cursor == 0 && post.picker.filter@ == pre.picker.filter@.push(
                ch,
            ),
            Key::Up => post.picker.cursor == (if n == 0 {
                c as int
            } else if c == 0 {
                n - 1
            } else {
                c - 1
            }),
            Key::Down => post.picker.cursor == (if n == 0 {
                c as int
            } else {
                (c + 1) % (n as int)
            }),
            Key::PageUp => post.picker.cursor == (if n == 0 {
                c as int
            } else if c >= 10 {
                c - 10
            } else {
                0
            }),
            Key::PageDown => post.picker.cursor == (if n == 0 {
                c as int
            } else if c + 10 < n - 1 {
                c + 10
            } else {
                n - 1
            }),
            Key::Home => post.picker.cursor == 0,
            Key::End => post.picker.cursor == (if n == 0 {
                c as int
            } else {
                n - 1
            }),
            Key::Esc => cancel_step(pre, post),
            Key::Enter => confirm_step(pre, post),
            _ => post.picker.cursor == pre.picker.cursor,
        }
    })
    &&& key != Key::Enter ==> same_choices(post, pre)
    &&& post.de_index == pre.de_index
    &&& item_views(post.official@) == item_views(pre.official@)
    &&& item_views(post.aur@) == item_views(pre.aur@)
    &&& (key != Key::Enter && key != Key::Esc ==> {
        &&& post.mode == pre.mode && post.status@ == pre.status@ && post.typing == pre.typing
        &&& views(post.picker.options@) == views(pre.picker.options@)
        &&& post.picker.target == pre.picker.target
        &&& post.picker.current@ == pre.picker.current@
        &&& post.picker.title@ == pre.picker.title@
        &&& !(key is Backspace || key is Char) ==> post.picker.filter@ == pre.picker.filter@
    })
}

/// What `App::handle_search` does (`pre` before, `post` after).
pub open spec fn search_step(pre: App, post: App, key: Key) -> bool {
    &&& post.list_cursor == moved(pre.list_cursor as int, pre.search_results@.len() as int, key)
    &&& (key == Key::Esc || key == Key::Char('q') || key == Key::Enter) ==> post.mode == Mode::Main
    &&& key == Key::Tab ==> post.search_source != pre.search_source && post.typing
    &&& (key == Key::Char('/') || key == Key::Char('i')) ==> post.typing
    &&& ({
        let c = post.list_cursor;
        let res = item_views(pre.search_results@);
        if key == Key::Char(' ') && c < res.len() {
            let it = res[c as int];
            &&& pre.search_source == Source::Official ==> item_views(post.official@) == toggled(
                item_views(pre.official@),
                it.0,
                it.1,
                it.3,
            ) && item_views(post.aur@) == item_views(pre.aur@)
            &&& pre.search_source == Source::Aur ==> item_views(post.aur@) == toggled(
                item_views(pre.aur@),
                it.0,
                it.1,
                it.3,
            ) && item_views(post.official@) == item_views(pre.official@)
        } else {
            item_views(post.official@) == item_views(pre.official@) && item_views(post.aur@)
                == item_views(pre.aur@)
        }
    })
    &&& post.de_index == pre.de_index
    &&& post.drivers@ == pre.drivers@
    &&& (key == Key::Char('/') || key == Key::Char('i')) ==> post.status@ == "Editando busqueda..."@
    &&& key == Key::Tab ==> post.status@ == "Fuente: "@ + source_label_spec(post.search_source)
        + ". Escribe y Enter para buscar."@
    &&& ({
        let c = post.list_cursor;
        let res = item_views(pre.search_results@);
        if key == Key::Char(' ') && c < res.len() {
            let it = res[c as int];
            let list = if pre.search_source == Source::Official {
                item_views(pre.official@)
            } else {
                item_views(pre.aur@)
            };
            let on = match first_named(list, it.0) {
                Some(k) => !list[k].2,
                None => true,
            };
            &&& item_views(post.search_results@) == res.update(c as int, (it.0, it.1, on, it.3))
            &&& post.status@ == (if on {
                "Anadido: "@
            } else {
                "Quitado: "@
            }) + it.0
        } else {
            item_views(post.search_results@) == res
        }
    })
    &&& !(key == Key::Char('/') || key == Key::Char('i') || key == Key::Tab || (key == Key::Char(' ')
        && post.list_cursor < pre.search_results@.len())) ==> post.status@ == pre.status@
}

/// What `App::handle_load_profile` does (`pre` before, `post` after).
pub open spec fn load_step(pre: App, post: App, key: Key, r: Request) -> bool {
    &&& same_choices(post, pre)
    &&& post.list_cursor == moved(pre.list_cursor as int, pre.profiles@.len() as int, key)
    &&& (key == Key::Esc || key == Key::Char('q') || key == Key::Enter) ==> post.mode == Mode::Main
    &&& (key == Key::Enter && post.list_cursor < pre.profiles@.len()
        ==> (r matches Request::LoadProfile(
        n,
    ) && n@ == pre.profiles@[post.list_cursor as int]@))
    &&& (!(key == Key::Enter && post.list_cursor < pre.profiles@.len())
        ==> r matches Request::Nothing)
    &&& post.status@ == pre.status@
}

/// What `App::handle_text_submit` does (`pre` before, `post` after).
pub open spec fn submit_step(pre: App, post: App, r: Request) -> bool {
    &&& same_choices(post, pre)
    &&& (pre.mode == Mode::Search ==> (if trim_seq(pre.search_input@).len() == 0 {
        r matches Request::Nothing
    } else {
        r matches Request::Search { source, term } && source == pre.search_source && term@
            == trim_seq(pre.search_input@)
    }))
    &&& (pre.mode == Mode::SaveProfile ==> (if trim_seq(pre.name_input@).len() == 0 {
        r matches Request::Nothing
    } else {
        r matches Request::SaveProfile(p) && exists|plan: InstallPlan|
            plan_built(pre, plan) && crate::model::profile_of(p, trim_seq(pre.name_input@), plan)
    }))
    &&& (pre.mode == Mode::System ==> !post.typing && (r matches Request::Nothing) && post.status@
        == (match field_text(pre, pre.sys_cursor) {
        Some(v) => if v.len() == 0 {
            "Campo vacio: no se modificara ese ajuste."@
        } else if !setting_valid(field_setting(pre.sys_cursor), v) {
            "'"@ + v + "' no es un "@ + field_label(pre.sys_cursor) + " valido; se omitira al instalar."@
        } else {
            "Campo guardado."@
        },
        None => "Campo vacio: no se modificara ese ajuste."@,
    }))
    &&& (pre.mode == Mode::Search ==> post.status@ == (if trim_seq(pre.search_input@).len() == 0 {
        "Escribe algo para buscar."@
    } else {
        "Buscando..."@
    }))
    &&& (pre.mode == Mode::SaveProfile && trim_seq(pre.name_input@).len() == 0 ==> post.status@
        == "El nombre no puede estar vacio."@)
    &&& (pre.mode == Mode::SaveProfile && trim_seq(pre.name_input@).len() > 0 ==> post.status@
        == pre.status@)
    &&& (!(pre.mode == Mode::Search || pre.mode == Mode::SaveProfile || pre.mode == Mode::System)
        ==> (r matches Request::Nothing) && post.status@ == pre.status@ && post.mode == pre.mode)
}

impl App {
    /// Applies a loaded profile: its environment (the first entry when it
    /// names none, unchanged when it names an unknown one), its packages
    /// merged into both lists, and its mirror region.
    pub fn apply_profile(&mut self, p: Profile)
        requires
            old(self).wf(),
        ensures
            final(self).wf(),
            final(self).de_index == (match p.desktop_environment {
                Some(id) => match first_index(env_ids(), id@) {
                    Some(k) => k as usize,
                    None => old(self).de_index,
                },
                None => 0,
            }),
            item_views(final(self).official@) == merged(
                item_views(old(self).official@),
                views(p.official_packages@),
                Source::Official,
                old(self).sys_state,
            ),
            item_views(final(self).aur@) == merged(
                item_views(old(self).aur@),
                views(p.aur_packages@),
                Source::Aur,
                old(self).sys_state,
            ),
            final(self).sys_mirror_region@ == text_or_empty(p.mirror_region),
            final(self).status@ == "Perfil '"@ + p.name@ + "' cargado."@,
            final(self).mode == old(self).mode,
            final(self).drivers@ == old(self).drivers@,
            final(self).drivers_installed@ == old(self).drivers_installed@,
            final(self).sys_locale@ == old(self).sys_locale@,
            final(self).sys_timezone@ == old(self).sys_timezone@,
            final(self).sys_keymap@ == old(self).sys_keymap@,
            final(self).sys_hostname@ == old(self).sys_hostname@,
    {
        match &p.desktop_environment {
            Some(id) => {
                match env_index(id.as_str()) {
                    Some(k) => {
                        proof {
                            lemma_first_index(env_ids(), id@);
                        }
                        self.de_index = k;
                    },
                    None => {},
                }
            },
            None => {
                self.de_index = 0;
            },
        }
        merge_profile_into(&mut self.official, &p.official_packages, Source::Official, &self.sys_state);
        merge_profile_into(&mut self.aur, &p.aur_packages, Source::Aur, &self.sys_state);
        self.sys_mirror_region = value_or_empty(&p.mirror_region);
        self.status = cat3("Perfil '", p.name.as_str(), "' cargado.");
    }
}

impl App {
    /// The plan of the current choices is empty.
    pub open spec fn plan_empty(self) -> bool {
        dedup_texts(sort_texts(official_raw(self))).len() == 0 && dedup_texts(
            sort_texts(selected_names(item_views(self.aur@))),
        ).len() == 0
    }

    /// Main menu: arrows move; Enter opens the entry under the cursor;
    /// `q` or Esc leave the assistant.
    pub fn handle_main(&mut self, key: Key) -> (r: Request)
        requires
            old(self).wf(),
            old(self).mode == Mode::Main,
        ensures
            final(self).wf(),
            main_step(*old(self), *final(self), key, r),
    {
        move_cursor(&mut self.main_cursor, MENU_LEN, key);
        match key {
            Key::Char('q') | Key::Esc => {
                return Request::Finish(Outcome::Cancelled);
            },
            Key::Enter => {
                let c = self.main_cursor;
                if c == MENU_DESKTOP {
                    self.mode = Mode::Desktop;
                    self.list_cursor = self.de_index;
                } else if c == MENU_DRIVERS {
                    self.mode = Mode::Drivers;
                    self.list_cursor = 0;
                    self.status = owned("Marca tu GPU y el microcodigo de tu CPU.");
                } else if c == MENU_OFFICIAL {
                    self.mode = Mode::Official;
                    self.list_cursor = 0;
                } else if c == MENU_AUR {
                    self.mode = Mode::Aur;
                    self.list_cursor = 0;
                } else if c == MENU_SYSTEM {
                    self.mode = Mode::System;
                    self.sys_cursor = 0;
                    self.status = owned("Rellena lo que quieras configurar (vacio = no tocar).");
                } else if c == MENU_MIRROR {
                    return Request::PickerOptions(PickerTarget::Mirror);
                } else if c == MENU_SEARCH {
                    self.mode = Mode::Search;
                    self.typing = true;
                    self.search_results = Vec::new();
                    self.status = owned("Tab cambia oficial/AUR. Escribe y Enter para buscar.");
                } else if c == MENU_LOAD {
                    return Request::ListProfiles;
                } else if c == MENU_SAVE {
                    self.mode = Mode::SaveProfile;
                    self.typing = true;
                    self.name_input = String::new();
                    self.status = owned("Escribe un nombre y Enter para guardar.");
                } else if c == MENU_INSTALL {
                    let plan = self.build_plan();
                    if plan.is_empty() {
                        self.status = owned(
                            "Nada que instalar: elige un entorno o marca paquetes.",
                        );
                    } else {
                        self.preflight = None;
                        self.estimate = None;
                        self.mode = Mode::Review;
                        self.status = owned(
                            "Revisa el plan. Enter confirma, Esc vuelve al menu.",
                        );
                    }
                } else if c == MENU_QUIT {
                    return Request::Finish(Outcome::Cancelled);
                }
            },
            _ => {},
        }
        Request::Nothing
    }

    /// Environment list: Space or Enter choose the one under the cursor and
    /// go back to the menu.
    pub fn handle_desktop(&mut self, key: Key)
        requires
            old(self).wf(),
            old(self).mode == Mode::Desktop,
        ensures
            final(self).wf(),
            desktop_step(*old(self), *final(self), key),
    {
        let envs = desktop_environments();
        proof {
            lemma_moved_in_range(self.list_cursor as int, envs_spec().len() as int, key);
        }
        move_cursor(&mut self.list_cursor, envs.len(), key);
        match key {
            Key::Esc | Key::Char('q') => {
                self.mode = Mode::Main;
            },
            Key::Char(' ') | Key::Enter => {
                self.de_index = self.list_cursor;
                let de = &envs[self.de_index];
                assert(envs@.map_values(|e: crate::model::DesktopEnvironment| env_view(e))[self.de_index as int]
                    == env_view(envs@[self.de_index as int]));
                self.status = crate::text::cat("Entorno: ", de.label);
                self.mode = Mode::Main;
            },
            _ => {},
        }
    }

    /// Driver checklist: Space checks or unchecks the driver under the
    /// cursor.
    pub fn handle_drivers(&mut self, key: Key)
        requires
            old(self).wf(),
            old(self).mode == Mode::Drivers,
        ensures
            final(self).wf(),
            drivers_step(*old(self), *final(self), key),
    {
        move_cursor(&mut self.list_cursor, 8, key);
        match key {
            Key::Esc | Key::Char('q') => {
                self.mode = Mode::Main;
            },
            Key::Char(' ') => {
                if self.list_cursor < self.drivers.len() {
                    let i = self.list_cursor;
                    let v = !self.drivers[i];
                    self.drivers.set(i, v);
                }
            },
            _ => {},
        }
    }

    /// Package checklist of one source: Space selects or unselects the
    /// package under the cursor.
    pub fn handle_packages(&mut self, key: Key, source: Source)
        requires
            old(self).wf(),
            old(self).mode == Mode::Official || old(self).mode == Mode::Aur,
        ensures
            final(self).wf(),
            packages_step(*old(self), *final(self), key, source),
    {
        let len = match source {
            Source::Official => self.official.len(),
            Source::Aur => self.aur.len(),
        };
        move_cursor(&mut self.list_cursor, len, key);
        match key {
            Key::Esc | Key::Char('q') => {
                self.mode = Mode::Main;
            },
            Key::Char(' ') => {
                let c = self.list_cursor;
                if c < len {
                    match source {
                        Source::Official => flip_selected(&mut self.official, c),
                        Source::Aur => flip_selected(&mut self.aur, c),
                    }
                }
            },
            _ => {},
        }
    }
}

fn flip_selected(items: &mut Vec<PkgItem>, i: usize)
    requires
        i < old(items)@.len(),
    ensures
        item_views(final(items)@) == item_views(old(items)@).update(
            i as int,
            (
                item_views(old(items)@)[i as int].0,
                item_views(old(items)@)[i as int].1,
                !item_views(old(items)@)[i as int].2,
                item_views(old(items)@)[i as int].3,
            ),
        ),
{
    let ghost iv = item_views(items@);
    let mut it = items.remove(i);
    it.selected = !it.selected;
    items.insert(i, it);
    assert(item_views(items@) =~= iv.update(
        i as int,
        (iv[i as int].0, iv[i as int].1, !iv[i as int].2, iv[i as int].3),
    ));
}

/// The form field under a settings cursor, when it is a text field.
pub open spec fn field_text(app: App, c: usize) -> Option<Seq<char>> {
    if c == 0 {
        Some(app.sys_locale@)
    } else if c == 1 {
        Some(app.sys_timezone@)
    } else if c == 2 {
        Some(app.sys_keymap@)
    } else if c == 3 {
        Some(app.sys_hostname@)
    } else {
        None
    }
}

/// The picker target of a settings field with a list.
pub open spec fn field_target(c: usize) -> Option<PickerTarget> {
    if c == 0 {
        Some(PickerTarget::Locale)
    } else if c == 1 {
        Some(PickerTarget::Timezone)
    } else if c == 2 {
        Some(PickerTarget::Keymap)
    } else {
        None
    }
}

/// The settings of the form after the value `v` was picked for the field of
/// `t`: that field holds it, the others and the toggles stay.
pub open spec fn picked_into(pre: App, post: App, t: PickerTarget, v: Seq<char>) -> bool {
    &&& post.sys_locale@ == (if t == PickerTarget::Locale {
        v
    } else {
        pre.sys_locale@
    })
    &&& post.sys_timezone@ == (if t == PickerTarget::Timezone {
        v
    } else {
        pre.sys_timezone@
    })
    &&& post.sys_keymap@ == (if t == PickerTarget::Keymap {
        v
    } else {
        pre.sys_keymap@
    })
    &&& post.sys_mirror_region@ == (if t == PickerTarget::Mirror {
        v
    } else {
        pre.sys_mirror_region@
    })
    &&& post.sys_hostname@ == pre.sys_hostname@
    &&& post.sys_multilib == pre.sys_multilib
    &&& post.sys_reboot == pre.sys_reboot
    &&& post.sys_cleanup_orphans == pre.sys_cleanup_orphans
    &&& post.drivers_installed@ == pre.drivers_installed@
}

/// What cancelling a picker does: back to the screen it was opened from,
/// nothing chosen changes.
pub open spec fn cancel_step(pre: App, post: App) -> bool {
    &&& post.mode == return_mode(pre.picker.target)
    &&& same_choices(post, pre)
    &&& post.status@ == "Picker cancelado."@
}

/// What confirming a picker does. Without a shown option nothing changes.
/// The custom option switches to typing in the field; for the mirror picker
/// the filter's trimmed text is the value, when there is one. Any other
/// option becomes the field's value.
pub open spec fn confirm_step(pre: App, post: App) -> bool {
    let shown = filtered_spec(views(pre.picker.options@), pre.picker.filter@);
    let c = pre.picker.cursor;
    let t = pre.picker.target;
    &&& post.de_index == pre.de_index
    &&& item_views(post.official@) == item_views(pre.official@)
    &&& item_views(post.aur@) == item_views(pre.aur@)
    &&& post.drivers@ == pre.drivers@
    &&& if c >= shown.len() {
        &&& same_choices(post, pre) && post.mode == pre.mode
        &&& post.status@ == "No hay resultados. Esc para cancelar."@
    } else if shown[c as int] == custom_option() {
        if t == PickerTarget::Mirror {
            let custom = trim_seq(pre.picker.filter@);
            if custom.len() == 0 {
                &&& same_choices(post, pre) && post.mode == pre.mode
                &&& post.status@ == "Escribe el pais en el filtro y Enter para confirmar."@
            } else {
                &&& picked_into(pre, post, t, custom) && post.mode == Mode::Main
                &&& post.status@ == "Region seleccionada: "@ + custom
            }
        } else {
            &&& same_choices(post, pre) && post.mode == Mode::System && post.typing
            &&& field_target(post.sys_cursor) == Some(t)
            &&& post.status@ == "Escribe el valor y Enter para confirmar."@
        }
    } else {
        &&& picked_into(pre, post, t, shown[c as int]) && post.mode == return_mode(t)
        &&& post.status@ == "Seleccionado: "@ + shown[c as int]
    }
}

impl App {
    /// Settings form: arrows move between fields; Space flips the toggles
    /// (multilib, reboot, remove orphans); Enter or `i` open the list of the
    /// field (or type the hostname).
    pub fn handle_system(&mut self, key: Key) -> (r: Request)
        requires
            old(self).wf(),
            old(self).mode == Mode::System,
        ensures
            final(self).wf(),
            system_step(*old(self), *final(self), key, r),
    {
        move_cursor(&mut self.sys_cursor, SYS_FIELDS, key);
        match key {
            Key::Esc | Key::Char('q') => {
                self.mode = Mode::Main;
            },
            Key::Char(' ') => {
                if self.sys_cursor == SYS_MULTILIB {
                    self.sys_multilib = !self.sys_multilib;
                } else if self.sys_cursor == SYS_REBOOT {
                    self.sys_reboot = !self.sys_reboot;
                } else if self.sys_cursor == SYS_CLEANUP {
                    self.sys_cleanup_orphans = !self.sys_cleanup_orphans;
                }
            },
            Key::Enter | Key::Char('i') => {
                if self.sys_cursor == 0 {
                    return Request::PickerOptions(PickerTarget::Locale);
                } else if self.sys_cursor == 1 {
                    return Request::PickerOptions(PickerTarget::Timezone);
                } else if self.sys_cursor == 2 {
                    return Request::PickerOptions(PickerTarget::Keymap);
                } else if self.sys_cursor == 3 {
                    self.typing = true;
                    self.status = owned("Editando hostname. Enter confirma, Esc cancela.");
                }
            },
            _ => {},
        }
        Request::Nothing
    }

    /// Opens the picker of a field with its option list: the current value
    /// (trimmed) is remembered and the custom option comes first.
    pub fn open_picker(&mut self, target: PickerTarget, options: Vec<String>)
        requires
            old(self).wf(),
        ensures
            final(self).wf(),
            final(self).mode == picker_mode(target),
            final(self).picker.target == target,
            views(final(self).picker.options@) == seq![custom_option()] + views(options@),
            final(self).picker.filter@.len() == 0,
            final(self).picker.cursor == 0,
            final(self).picker.current@ == trim_seq(
                match target {
                    PickerTarget::Locale => old(self).sys_locale@,
                    PickerTarget::Timezone => old(self).sys_timezone@,
                    PickerTarget::Keymap => old(self).sys_keymap@,
                    PickerTarget::Mirror => old(self).sys_mirror_region@,
                },
            ),
            final(self).picker.title@ == match target {
                PickerTarget::Locale => "Selecciona locale"@,
                PickerTarget::Timezone => "Selecciona zona horaria"@,
                PickerTarget::Keymap => "Selecciona teclado de consola"@,
                PickerTarget::Mirror => "Selecciona pais/region (reflector)"@,
            },
            final(self).status@ == "Escribe para filtrar · Enter elige · Esc cancela"@,
            same_choices(*final(self), *old(self)),
    {
        let (title, current) = match target {
            PickerTarget::Locale => ("Selecciona locale", trim(self.sys_locale.as_str())),
            PickerTarget::Timezone => ("Selecciona zona horaria", trim(self.sys_timezone.as_str())),
            PickerTarget::Keymap => (
                "Selecciona teclado de consola",
                trim(self.sys_keymap.as_str()),
            ),
            PickerTarget::Mirror => (
                "Selecciona pais/region (reflector)",
                trim(self.sys_mirror_region.as_str()),
            ),
        };
        self.picker = PickerState::new(title, options, current, target);
        self.mode = match target {
            PickerTarget::Locale => Mode::PickLocale,
            PickerTarget::Timezone => Mode::PickTimezone,
            PickerTarget::Keymap => Mode::PickKeymap,
            PickerTarget::Mirror => Mode::PickMirror,
        };
        self.status = owned("Escribe para filtrar · Enter elige · Esc cancela");
    }

    /// Closes the picker without changing anything.
    pub fn cancel_picker(&mut self)
        requires
            old(self).wf(),
        ensures
            final(self).wf(),
            cancel_step(*old(self), *final(self)),
    {
        self.mode = picker_return_mode(self.picker.target);
        self.status = owned("Picker cancelado.");
    }

    /// Confirms the option under the picker's cursor. The custom option
    /// switches to typing in the field (for the mirror picker, the filter's
    /// text is the value); any other option becomes the field's value.
    pub fn confirm_picker(&mut self)
        requires
            old(self).wf(),
        ensures
            final(self).wf(),
            confirm_step(*old(self), *final(self)),
    {
        let shown = self.picker.filtered();
        let c = self.picker.cursor;
        if c >= shown.len() {
            self.status = owned("No hay resultados. Esc para cancelar.");
            return;
        }
        let picked = owned(shown[c]);
        assert(picked@ == filtered_spec(views(self.picker.options@), self.picker.filter@)[c as int]);
        if str_eq(picked.as_str(), "(Personalizado...)") {
            match self.picker.target {
                PickerTarget::Mirror => {
                    let custom = trim(self.picker.filter.as_str());
                    if custom.as_str().is_empty() {
                        self.status = owned("Escribe el pais en el filtro y Enter para confirmar.");
                    } else {
                        self.status = crate::text::cat("Region seleccionada: ", custom.as_str());
                        self.sys_mirror_region = custom;
                        self.mode = Mode::Main;
                    }
                },
                PickerTarget::Locale => {
                    self.sys_cursor = 0;
                    self.typing = true;
                    self.mode = Mode::System;
                    self.status = owned("Escribe el valor y Enter para confirmar.");
                },
                PickerTarget::Timezone => {
                    self.sys_cursor = 1;
                    self.typing = true;
                    self.mode = Mode::System;
                    self.status = owned("Escribe el valor y Enter para confirmar.");
                },
                PickerTarget::Keymap => {
                    self.sys_cursor = 2;
                    self.typing = true;
                    self.mode = Mode::System;
                    self.status = owned("Escribe el valor y Enter para confirmar.");
                },
            }
            return;
        }
        self.status = crate::text::cat("Seleccionado: ", picked.as_str());
        match self.picker.target {
            PickerTarget::Locale => self.sys_locale = picked,
            PickerTarget::Timezone => self.sys_timezone = picked,
            PickerTarget::Keymap => self.sys_keymap = picked,
            PickerTarget::Mirror => self.sys_mirror_region = picked,
        }
        self.mode = picker_return_mode(self.picker.target);
    }

    /// Keys of a picker: typing filters (and puts the cursor back on top),
    /// arrows move within the filtered list, Enter confirms, Esc cancels.
    pub fn handle_picker(&mut self, key: Key)
        requires
            old(self).wf(),
        ensures
            final(self).wf(),
            picker_step(*old(self), *final(self), key),
    {
        let n = self.picker.filtered().len();
        match key {
            Key::Esc => self.cancel_picker(),
            Key::Enter => self.confirm_picker(),
            Key::Backspace => {
                drop_last_char(&mut self.picker.filter);
                self.picker.cursor = 0;
            },
            Key::Char(ch) => {
                add_char(&mut self.picker.filter, ch);
                self.picker.cursor = 0;
            },
            Key::Up => {
                if n > 0 {
                    self.picker.cursor = if self.picker.cursor == 0 {
                        n - 1
                    } else {
                        self.picker.cursor - 1
                    };
                }
            },
            Key::Down => {
                if n > 0 {
                    let c = self.picker.cursor;
                    let next = if c % n == n - 1 {
                        0
                    } else {
                        c % n + 1
                    };
                    assert(next == (c + 1) % (n as int)) by (nonlinear_arith)
                        requires
                            n > 0,
                            next == (if c % n == n - 1 {
                                0
                            } else {
                                c % n + 1
                            }),
                    ;
                    self.picker.cursor = next;
                }
            },
            Key::PageUp => {
                if n > 0 {
                    self.picker.cursor = if self.picker.cursor >= 10 {
                        self.picker.cursor - 10
                    } else {
                        0
                    };
                }
            },
            Key::PageDown => {
                if n > 0 {
                    let c = self.picker.cursor;
                    self.picker.cursor = if n > 11 && c < n - 11 {
                        c + 10
                    } else {
                        n - 1
                    };
                }
            },
            Key::Home => self.picker.cursor = 0,
            Key::End => {
                if n > 0 {
                    self.picker.cursor = n - 1;
                }
            },
            _ => {},
        }
    }
}

/// A search result as an item of a list, marked installed when the system
/// has it from the searched source.
pub open spec fn result_item(
    f: (Seq<char>, Seq<char>),
    src: Source,
    sys: SystemStatus,
) -> (Seq<char>, Seq<char>, bool, bool) {
    (f.0, f.1, false, installed_flag(sys, f.0, src))
}

impl App {
    /// Search results: Tab switches between official repositories and AUR;
    /// `/` or `i` edit the term; Space adds the result under the cursor to
    /// (or removes it from) the list of its source.
    pub fn handle_search(&mut self, key: Key)
        requires
            old(self).wf(),
            old(self).mode == Mode::Search,
        ensures
            final(self).wf(),
            search_step(*old(self), *final(self), key),
    {
        move_cursor(&mut self.list_cursor, self.search_results.len(), key);
        match key {
            Key::Esc | Key::Char('q') | Key::Enter => {
                self.mode = Mode::Main;
            },
            Key::Char('/') | Key::Char('i') => {
                self.typing = true;
                self.status = owned("Editando busqueda...");
            },
            Key::Tab => {
                self.search_source = match self.search_source {
                    Source::Official => Source::Aur,
                    Source::Aur => Source::Official,
                };
                self.typing = true;
                self.status = cat3(
                    "Fuente: ",
                    source_label(self.search_source),
                    ". Escribe y Enter para buscar.",
                );
            },
            Key::Char(' ') => {
                let c = self.list_cursor;
                if c < self.search_results.len() {
                    let name = self.search_results[c].name.clone();
                    let desc = self.search_results[c].description.clone();
                    let installed = self.search_results[c].installed;
                    let on = match self.search_source {
                        Source::Official => toggle_into(
                            &mut self.official,
                            name.as_str(),
                            desc.as_str(),
                            installed,
                        ),
                        Source::Aur => toggle_into(
                            &mut self.aur,
                            name.as_str(),
                            desc.as_str(),
                            installed,
                        ),
                    };
                    set_selected(&mut self.search_results, c, on);
                    self.status = if on {
                        crate::text::cat("Anadido: ", name.as_str())
                    } else {
                        crate::text::cat("Quitado: ", name.as_str())
                    };
                }
            },
            _ => {},
        }
    }

    /// Saved profiles: Enter loads the one under the cursor; either way the
    /// assistant goes back to the menu.
    pub fn handle_load_profile(&mut self, key: Key) -> (r: Request)
        requires
            old(self).wf(),
            old(self).mode == Mode::LoadProfile,
        ensures
            final(self).wf(),
            load_step(*old(self), *final(self), key, r),
    {
        move_cursor(&mut self.list_cursor, self.profiles.len(), key);
        match key {
            Key::Esc | Key::Char('q') => {
                self.mode = Mode::Main;
            },
            Key::Enter => {
                self.mode = Mode::Main;
                let c = self.list_cursor;
                if c < self.profiles.len() {
                    return Request::LoadProfile(self.profiles[c].clone());
                }
            },
            _ => {},
        }
        Request::Nothing
    }

    /// Enter in a text field: starts the search, saves the profile, or
    /// checks the settings field just edited.
    pub fn handle_text_submit(&mut self) -> (r: Request)
        requires
            old(self).wf(),
        ensures
            final(self).wf(),
            submit_step(*old(self), *final(self), r),
    {
        match self.mode {
            Mode::Search => {
                let term = trim(self.search_input.as_str());
                if term.as_str().is_empty() {
                    self.status = owned("Escribe algo para buscar.");
                    return Request::Nothing;
                }
                self.status = owned("Buscando...");
                Request::Search { source: self.search_source, term }
            },
            Mode::SaveProfile => {
                let name = trim(self.name_input.as_str());
                if name.as_str().is_empty() {
                    self.status = owned("El nombre no puede estar vacio.");
                    return Request::Nothing;
                }
                let plan = self.build_plan();
                Request::SaveProfile(Profile::from_plan(name.as_str(), &plan))
            },
            Mode::System => {
                self.typing = false;
                let c = self.sys_cursor;
                if c > 3 {
                    self.status = owned("Campo vacio: no se modificara ese ajuste.");
                    return Request::Nothing;
                }
                let (value, valid) = if c == 0 {
                    (self.sys_locale.clone(), is_valid_locale(self.sys_locale.as_str()))
                } else if c == 1 {
                    (self.sys_timezone.clone(), is_valid_timezone(self.sys_timezone.as_str()))
                } else if c == 2 {
                    (self.sys_keymap.clone(), is_valid_keymap(self.sys_keymap.as_str()))
                } else {
                    (self.sys_hostname.clone(), is_valid_hostname(self.sys_hostname.as_str()))
                };
                let label = field_label_text(c);
                self.status = if value.as_str().is_empty() {
                    owned("Campo vacio: no se modificara ese ajuste.")
                } else if !valid {
                    let head = cat3("'", value.as_str(), "' no es un ");
                    cat3(head.as_str(), label, " valido; se omitira al instalar.")
                } else {
                    owned("Campo guardado.")
                };
                Request::Nothing
            },
            _ => Request::Nothing,
        }
    }
}

/// The setting a text field of the form holds.
pub open spec fn field_setting(c: usize) -> Setting {
    if c == 0 {
        Setting::Locale
    } else if c == 1 {
        Setting::Timezone
    } else if c == 2 {
        Setting::Keymap
    } else {
        Setting::Hostname
    }
}

/// How a field of the form is called in messages.
pub open spec fn field_label(c: usize) -> Seq<char> {
    if c == 0 {
        "locale"@
    } else if c == 1 {
        "zona horaria"@
    } else if c == 2 {
        "teclado"@
    } else {
        "hostname"@
    }
}

fn field_label_text(c: usize) -> (r: &'static str)
    ensures
        r@ == field_label(c),
{
    if c == 0 {
        "locale"
    } else if c == 1 {
        "zona horaria"
    } else if c == 2 {
        "teclado"
    } else {
        "hostname"
    }
}

fn set_selected(items: &mut Vec<PkgItem>, i: usize, on: bool)
    requires
        i < old(items)@.len(),
    ensures
        item_views(final(items)@) == item_views(old(items)@).update(
            i as int,
            (
                item_views(old(items)@)[i as int].0,
                item_views(old(items)@)[i as int].1,
                on,
                item_views(old(items)@)[i as int].3,
            ),
        ),
{
    let ghost iv = item_views(items@);
    let mut it = items.remove(i);
    it.selected = on;
    items.insert(i, it);
    assert(item_views(items@) =~= iv.update(
        i as int,
        (iv[i as int].0, iv[i as int].1, on, iv[i as int].3),
    ));
}

/// The text fields after an edit `f` of the active one: the search term in
/// the search screen, the field under the cursor in the settings form, the
/// profile name elsewhere. Nothing else the user chose changes.
pub open spec fn edited(pre: App, post: App, f: spec_fn(Seq<char>) -> Seq<char>) -> bool {
    let sys = pre.mode == Mode::System;
    let search = pre.mode == Mode::Search;
    &&& post.search_input@ == (if search {
        f(pre.search_input@)
    } else {
        pre.search_input@
    })
    &&& post.name_input@ == (if !search && !sys {
        f(pre.name_input@)
    } else {
        pre.name_input@
    })
    &&& post.sys_locale@ == (if sys && pre.sys_cursor == 0 {
        f(pre.sys_locale@)
    } else {
        pre.sys_locale@
    })
    &&& post.sys_timezone@ == (if sys && pre.sys_cursor == 1 {
        f(pre.sys_timezone@)
    } else {
        pre.sys_timezone@
    })
    &&& post.sys_keymap@ == (if sys && pre.sys_cursor == 2 {
        f(pre.sys_keymap@)
    } else {
        pre.sys_keymap@
    })
    &&& post.sys_hostname@ == (if sys && pre.sys_cursor == 3 {
        f(pre.sys_hostname@)
    } else {
        pre.sys_hostname@
    })
    &&& post.de_index == pre.de_index
    &&& post.drivers@ == pre.drivers@
    &&& post.drivers_installed@ == pre.drivers_installed@
    &&& item_views(post.official@) == item_views(pre.official@)
    &&& item_views(post.aur@) == item_views(pre.aur@)
    &&& post.sys_mirror_region@ == pre.sys_mirror_region@
    &&& post.sys_multilib == pre.sys_multilib
    &&& post.sys_reboot == pre.sys_reboot
    &&& post.sys_cleanup_orphans == pre.sys_cleanup_orphans
}

/// What one key press does. `u` dismisses the update notice. While typing,
/// Esc stops typing, Enter submits the field, Backspace and characters edit
/// it. Otherwise the screen takes the key: the welcome screen starts or
/// leaves, the review screen installs, goes back, leaves or runs the
/// pre-flight again, and the other screens go to their handlers.
pub open spec fn key_step(pre: App, post: App, key: Key, r: Request) -> bool {
    let nothing = r matches Request::Nothing;
    if key == Key::Char('u') && pre.update_notice is Some && !pre.update_dismissed {
        &&& post.update_dismissed && nothing && same_choices(post, pre)
        &&& post.mode == pre.mode && post.typing == pre.typing
    } else if pre.typing {
        match key {
            Key::Esc => !post.typing && nothing && same_choices(post, pre) && post.mode == pre.mode,
            Key::Enter => submit_step(pre, post, r),
            Key::Backspace => nothing && post.typing && post.mode == pre.mode && edited(
                pre,
                post,
                |t: Seq<char>|
                    if t.len() == 0 {
                        t
                    } else {
                        t.drop_last()
                    },
            ),
            Key::Char(c) => nothing && post.typing && post.mode == pre.mode && edited(
                pre,
                post,
                |t: Seq<char>| t.push(c),
            ),
            _ => nothing && post.typing && post.mode == pre.mode && same_choices(post, pre),
        }
    } else {
        match pre.mode {
            Mode::Welcome => same_choices(post, pre) && match key {
                Key::Enter | Key::Char(' ') => nothing && post.mode == Mode::Main,
                Key::Esc | Key::Char('q') => r matches Request::Finish(Outcome::Cancelled),
                _ => nothing && post.mode == pre.mode,
            },
            Mode::PickLocale | Mode::PickTimezone | Mode::PickKeymap | Mode::PickMirror => nothing
                && picker_step(pre, post, key),
            Mode::Main => main_step(pre, post, key, r),
            Mode::Desktop => nothing && desktop_step(pre, post, key),
            Mode::Drivers => nothing && drivers_step(pre, post, key),
            Mode::Official => nothing && packages_step(pre, post, key, Source::Official),
            Mode::Aur => nothing && packages_step(pre, post, key, Source::Aur),
            Mode::System => system_step(pre, post, key, r),
            Mode::Search => nothing && search_step(pre, post, key),
            Mode::LoadProfile => load_step(pre, post, key, r),
            Mode::SaveProfile => nothing && same_choices(post, pre) && post.mode == pre.mode,
            Mode::Review => same_choices(post, pre) && match key {
                Key::Enter => r matches Request::Finish(Outcome::Confirmed { plan, save_as })
                    && plan_built(pre, *plan) && save_as is None,
                Key::Esc | Key::Char('q') => nothing && post.mode == Mode::Main,
                Key::Char('s') => r matches Request::Finish(Outcome::Cancelled),
                Key::Char('p') => r matches Request::RunPreflight,
                _ => nothing && post.mode == pre.mode,
            },
        }
    }
}

impl App {
    /// The answer to a search: the found packages become the result list
    /// (each marked installed when the system has it), or the error is
    /// shown.
    pub fn search_done(&mut self, result: Result<Vec<crate::repo_api::Found>, String>)
        requires
            old(self).wf(),
        ensures
            final(self).wf(),
            same_choices(*final(self), *old(self)),
            !final(self).typing,
            match result {
                Ok(found) => item_views(final(self).search_results@) == crate::repo_api::found_views(
                    found@,
                ).map_values(
                    |f: (Seq<char>, Seq<char>)| result_item(f, old(self).search_source, old(self).sys_state),
                ) && final(self).list_cursor == 0 && final(self).status@ == crate::text::dec(
                    found@.len(),
                ) + " resultados. Space para anadir, Enter vuelve al menu."@,
                Err(e) => final(self).status@ == "Error de busqueda: "@ + e@
                    && item_views(final(self).search_results@) == item_views(old(self).search_results@),
            },
    {
        match result {
            Ok(found) => {
                let ghost fv = crate::repo_api::found_views(found@);
                let mut items: Vec<PkgItem> = Vec::new();
                let mut i: usize = 0;
                while i < found.len()
                    invariant
                        i <= found.len(),
                        fv == crate::repo_api::found_views(found@),
                        item_views(items@) == fv.take(i as int).map_values(
                            |f: (Seq<char>, Seq<char>)| result_item(f, self.search_source, self.sys_state),
                        ),
                    decreases found.len() - i,
                {
                    let installed = installed_in(&self.sys_state, found[i].name.as_str(), self.search_source);
                    let ghost before = item_views(items@);
                    items.push(
                        PkgItem {
                            name: found[i].name.clone(),
                            description: found[i].description.clone(),
                            selected: false,
                            installed,
                        },
                    );
                    assert(item_views(items@) =~= before.push(
                        result_item(fv[i as int], self.search_source, self.sys_state),
                    ));
                    assert(fv.take(i + 1) =~= fv.take(i as int).push(fv[i as int]));
                    i = i + 1;
                }
                assert(fv.take(found.len() as int) =~= fv);
                let n = items.len();
                self.search_results = items;
                self.list_cursor = 0;
                self.typing = false;
                let count = crate::text::dec_string(n as u64);
                self.status = crate::text::cat(
                    count.as_str(),
                    " resultados. Space para anadir, Enter vuelve al menu.",
                );
            },
            Err(e) => {
                self.status = crate::text::cat("Error de busqueda: ", e.as_str());
                self.typing = false;
            },
        }
    }

    /// The answer to saving a profile: where it was written, or why not;
    /// either way the assistant goes back to the menu.
    pub fn profile_saved(&mut self, result: Result<String, String>)
        requires
            old(self).wf(),
        ensures
            final(self).wf(),
            same_choices(*final(self), *old(self)),
            !final(self).typing,
            final(self).mode == Mode::Main,
            final(self).status@ == match result {
                Ok(path) => "Perfil guardado: "@ + path@,
                Err(e) => "No se pudo guardar: "@ + e@,
            },
    {
        self.status = match result {
            Ok(path) => crate::text::cat("Perfil guardado: ", path.as_str()),
            Err(e) => crate::text::cat("No se pudo guardar: ", e.as_str()),
        };
        self.typing = false;
        self.mode = Mode::Main;
    }

    /// The saved profiles (none when they could not be listed): the list of
    /// profiles opens.
    pub fn profiles_listed(&mut self, names: Vec<String>)
        requires
            old(self).wf(),
        ensures
            final(self).wf(),
            same_choices(*final(self), *old(self)),
            final(self).profiles@ == names@,
            final(self).mode == Mode::LoadProfile,
            final(self).list_cursor == 0,
            final(self).status@ == (if names@.len() == 0 {
                "No hay perfiles guardados."@
            } else {
                old(self).status@
            }),
    {
        let empty = names.len() == 0;
        self.profiles = names;
        self.mode = Mode::LoadProfile;
        self.list_cursor = 0;
        if empty {
            self.status = owned("No hay perfiles guardados.");
        }
    }

    /// The answer to loading a profile: it is applied, or the error shown.
    pub fn profile_loaded(&mut self, result: Result<Profile, String>)
        requires
            old(self).wf(),
        ensures
            final(self).wf(),
            final(self).mode == Mode::Main,
            match result {
                Ok(p) => item_views(final(self).official@) == merged(
                    item_views(old(self).official@),
                    views(p.official_packages@),
                    Source::Official,
                    old(self).sys_state,
                ) && item_views(final(self).aur@) == merged(
                    item_views(old(self).aur@),
                    views(p.aur_packages@),
                    Source::Aur,
                    old(self).sys_state,
                ) && final(self).sys_mirror_region@ == text_or_empty(p.mirror_region),
                Err(e) => same_choices(*final(self), *old(self)) && final(self).status@
                    == "No se pudo cargar: "@ + e@,
            },
    {
        match result {
            Ok(p) => self.apply_profile(p),
            Err(e) => {
                self.status = crate::text::cat("No se pudo cargar: ", e.as_str());
            },
        }
        self.mode = Mode::Main;
    }

    /// The pre-flight report for the current plan, run again on request.
    pub fn preflight_done(&mut self, report: PreflightReport)
        requires
            old(self).wf(),
        ensures
            final(self).wf(),
            same_choices(*final(self), *old(self)),
            final(self).preflight == Some(report),
            final(self).mode == old(self).mode,
            final(self).status@ == "Pre-flight re-ejecutado."@,
    {
        self.preflight = Some(report);
        self.status = owned("Pre-flight re-ejecutado.");
    }

    /// One key press. `u` dismisses the update notice; while typing, keys
    /// edit the active text field; otherwise the key goes to the handler of
    /// the current screen.
    pub fn handle_key(&mut self, key: Key) -> (r: Request)
        requires
            old(self).wf(),
        ensures
            final(self).wf(),
            key_step(*old(self), *final(self), key, r),
    {
        if key == Key::Char('u') && self.update_notice.is_some() && !self.update_dismissed {
            self.update_dismissed = true;
            return Request::Nothing;
        }
        if self.typing {
            match key {
                Key::Esc => {
                    self.typing = false;
                },
                Key::Enter => {
                    return self.handle_text_submit();
                },
                Key::Backspace => {
                    match self.mode {
                        Mode::Search => drop_last_char(&mut self.search_input),
                        Mode::System => {
                            if self.sys_cursor == 0 {
                                drop_last_char(&mut self.sys_locale);
                            } else if self.sys_cursor == 1 {
                                drop_last_char(&mut self.sys_timezone);
                            } else if self.sys_cursor == 2 {
                                drop_last_char(&mut self.sys_keymap);
                            } else if self.sys_cursor == 3 {
                                drop_last_char(&mut self.sys_hostname);
                            }
                        },
                        _ => drop_last_char(&mut self.name_input),
                    }
                },
                Key::Char(c) => {
                    match self.mode {
                        Mode::Search => add_char(&mut self.search_input, c),
                        Mode::System => {
                            if self.sys_cursor == 0 {
                                add_char(&mut self.sys_locale, c);
                            } else if self.sys_cursor == 1 {
                                add_char(&mut self.sys_timezone, c);
                            } else if self.sys_cursor == 2 {
                                add_char(&mut self.sys_keymap, c);
                            } else if self.sys_cursor == 3 {
                                add_char(&mut self.sys_hostname, c);
                            }
                        },
                        _ => add_char(&mut self.name_input, c),
                    }
                },
                _ => {},
            }
            return Request::Nothing;
        }
        match self.mode {
            Mode::Welcome => {
                match key {
                    Key::Enter | Key::Char(' ') => {
                        self.mode = Mode::Main;
                    },
                    Key::Esc | Key::Char('q') => {
                        return Request::Finish(Outcome::Cancelled);
                    },
                    _ => {},
                }
                Request::Nothing
            },
            Mode::PickLocale | Mode::PickTimezone | Mode::PickKeymap | Mode::PickMirror => {
                self.handle_picker(key);
                Request::Nothing
            },
            Mode::Main => self.handle_main(key),
            Mode::Desktop => {
                self.handle_desktop(key);
                Request::Nothing
            },
            Mode::Drivers => {
                self.handle_drivers(key);
                Request::Nothing
            },
            Mode::Official => {
                self.handle_packages(key, Source::Official);
                Request::Nothing
            },
            Mode::Aur => {
                self.handle_packages(key, Source::Aur);
                Request::Nothing
            },
            Mode::System => self.handle_system(key),
            Mode::Search => {
                self.handle_search(key);
                Request::Nothing
            },
            Mode::LoadProfile => self.handle_load_profile(key),
            Mode::SaveProfile => Request::Nothing,
            Mode::Review => {
                match key {
                    Key::Enter => {
                        let plan = self.build_plan();
                        return Request::Finish(
                            Outcome::Confirmed { plan: Box::new(plan), save_as: None },
                        );
                    },
                    Key::Esc | Key::Char('q') => {
                        self.mode = Mode::Main;
                    },
                    Key::Char('s') => {
                        return Request::Finish(Outcome::Cancelled);
                    },
                    Key::Char('p') => {
                        return Request::RunPreflight;
                    },
                    _ => {},
                }
                Request::Nothing
            },
        }
    }
}

// ----------------------------------------------------------------------
// What the screens show
// ----------------------------------------------------------------------

/// The packages of `list` the system already has (from either source).
pub open spec fn present_spec(list: Seq<String>, off: Seq<String>, aur: Seq<String>) -> Seq<Seq<char>>
    decreases list.len(),
{
    if list.len() == 0 {
        Seq::empty()
    } else {
        let p = present_spec(list.drop_last(), off, aur);
        let x = list.last()@;
        if crate::text::list_has(off, x) || crate::text::list_has(aur, x) {
            p.push(x)
        } else {
            p
        }
    }
}

/// Splits a list of packages into those still to install and those the
/// system already has, each in the list's order.
pub fn split_installed(list: &Vec<String>, sys: &SystemStatus) -> (r: (Vec<String>, Vec<String>))
    ensures
        views(r.0@) == crate::estimate::pending_spec(list@, sys.official@, sys.aur@),
        views(r.1@) == present_spec(list@, sys.official@, sys.aur@),
{
    let mut todo: Vec<String> = Vec::new();
    let mut have: Vec<String> = Vec::new();
    let mut i: usize = 0;
    while i < list.len()
        invariant
            i <= list.len(),
            views(todo@) == crate::estimate::pending_spec(list@.take(i as int), sys.official@, sys.aur@),
            views(have@) == present_spec(list@.take(i as int), sys.official@, sys.aur@),
        decreases list.len() - i,
    {
        proof {
            assert(list@.take(i + 1).drop_last() =~= list@.take(i as int));
            assert(list@.take(i + 1).last() == list@[i as int]);
        }
        let name = list[i].as_str();
        if crate::text::list_contains(sys.official.as_slice(), name) || crate::text::list_contains(
            sys.aur.as_slice(),
            name,
        ) {
            let ghost before = have@;
            have.push(list[i].clone());
            assert(views(have@) =~= views(before).push(list@[i as int]@));
        } else {
            let ghost before = todo@;
            todo.push(list[i].clone());
            assert(views(todo@) =~= views(before).push(list@[i as int]@));
        }
        i = i + 1;
    }
    assert(list@.take(list@.len() as int) =~= list@);
    (todo, have)
}

/// The services the review lists: the system services of the plan, then the
/// audio stack when the plan enables user services.
pub open spec fn review_services_spec(plan: InstallPlan) -> Seq<Seq<char>> {
    views(plan.services@) + if plan.user_services@.len() > 0 {
        seq!["audio (PipeWire, --user)"@]
    } else {
        Seq::empty()
    }
}

/// The services of `svcs` the system reports enabled (`enabled`) or not
/// (`!enabled`), in order.
pub open spec fn services_in_state(svcs: Seq<Seq<char>>, sys: SystemStatus, enabled: bool) -> Seq<
    Seq<char>,
>
    decreases svcs.len(),
{
    if svcs.len() == 0 {
        Seq::empty()
    } else {
        let p = services_in_state(svcs.drop_last(), sys, enabled);
        if (sys.service_status_spec(svcs.last()) == ServiceStatus::Enabled) == enabled {
            p.push(svcs.last())
        } else {
            p
        }
    }
}

/// The services of the review, split into those still to enable and those
/// the system already has enabled, each in order.
pub fn review_services(plan: &InstallPlan, sys: &SystemStatus) -> (r: (Vec<String>, Vec<String>))
    ensures
        views(r.0@) == services_in_state(review_services_spec(*plan), *sys, false),
        views(r.1@) == services_in_state(review_services_spec(*plan), *sys, true),
{
    let mut all = crate::text::clone_strings(&plan.services);
    if plan.user_services.len() > 0 {
        all.push(owned("audio (PipeWire, --user)"));
    }
    let ghost av = views(all@);
    assert(av =~= review_services_spec(*plan));
    let mut todo: Vec<String> = Vec::new();
    let mut done: Vec<String> = Vec::new();
    let mut i: usize = 0;
    while i < all.len()
        invariant
            i <= all.len(),
            av == views(all@),
            views(todo@) == services_in_state(av.take(i as int), *sys, false),
            views(done@) == services_in_state(av.take(i as int), *sys, true),
        decreases all.len() - i,
    {
        proof {
            assert(av.take(i + 1).drop_last() =~= av.take(i as int));
            assert(av.take(i + 1).last() == av[i as int]);
        }
        let name = owned(all[i].as_str());
        if sys.service_status(all[i].as_str()) == ServiceStatus::Enabled {
            let ghost before = views(done@);
            done.push(name);
            assert(views(done@) =~= before.push(av[i as int]));
        } else {
            let ghost before = views(todo@);
            todo.push(name);
            assert(views(todo@) =~= before.push(av[i as int]));
        }
        i = i + 1;
    }
    assert(av.take(av.len() as int) =~= av);
    (todo, done)
}

/// Official and AUR packages on one line, the AUR ones marked `(aur)`;
/// `(ninguno)` when both are empty.
pub open spec fn with_source_spec(official: Seq<Seq<char>>, aur: Seq<Seq<char>>) -> Seq<char> {
    crate::model::list_or_none(
        official + aur.map_values(|a: Seq<char>| a + " (aur)"@),
    )
}

/// Joins the official and AUR packages of a list on one line, marking the
/// AUR ones.
pub fn join_with_source(official: &Vec<String>, aur: &Vec<String>) -> (r: String)
    ensures
        r@ == with_source_spec(views(official@), views(aur@)),
{
    let mut parts = crate::text::clone_strings(official);
    let ghost start = views(parts@);
    let ghost av = views(aur@);
    let mut i: usize = 0;
    while i < aur.len()
        invariant
            i <= aur.len(),
            av == views(aur@),
            views(parts@) == start + av.take(i as int).map_values(|a: Seq<char>| a + " (aur)"@),
        decreases aur.len() - i,
    {
        let ghost before = views(parts@);
        parts.push(crate::text::cat(aur[i].as_str(), " (aur)"));
        assert(views(parts@) =~= before.push(av[i as int] + " (aur)"@));
        assert(av.take(i + 1).map_values(|a: Seq<char>| a + " (aur)"@) =~= av.take(i as int).map_values(
            |a: Seq<char>| a + " (aur)"@,
        ).push(av[i as int] + " (aur)"@));
        i = i + 1;
    }
    assert(av.take(aur.len() as int) =~= av);
    crate::model::format_list_or_none(parts.as_slice())
}

/// The readable name of an environment by id; the id itself when the
/// catalog has none.
pub open spec fn de_label_spec(id: Seq<char>) -> Seq<char> {
    match first_index(env_ids(), id) {
        Some(k) => envs_spec()[k].1,
        None => id,
    }
}

/// The readable name of a desktop environment from its id.
pub fn lookup_de_label(id: &str) -> (r: String)
    ensures
        r@ == de_label_spec(id@),
{
    match env_index(id) {
        Some(k) => {
            let envs = desktop_environments();
            proof {
                lemma_first_index(env_ids(), id@);
            }
            assert(k < envs.len());
            assert(envs@.map_values(|e: crate::model::DesktopEnvironment| env_view(e))[k as int]
                == env_view(envs@[k as int]));
            owned(envs[k].label)
        },
        None => owned(id),
    }
}

/// Text cut to `max` characters: when longer, its first `max - 1`
/// characters and an ellipsis.
pub open spec fn truncate_spec(s: Seq<char>, max: nat) -> Seq<char> {
    if s.len() > max {
        s.take(if max >= 1 {
            max - 1
        } else {
            0
        }) + seq!['…']
    } else {
        s
    }
}

/// Cuts a text for a narrow column.
pub fn truncate(s: &str, max: usize) -> (r: String)
    ensures
        r@ == truncate_spec(s@, max as nat),
{
    let v = chars_of(s);
    if v.len() > max {
        let keep = if max >= 1 {
            max - 1
        } else {
            0
        };
        let mut w = crate::text::slice_range(v.as_slice(), 0, keep);
        w.push('…');
        assert(w@ =~= v@.take(keep as int) + seq!['…']);
        crate::text::string_of(w.as_slice())
    } else {
        owned(s)
    }
}

/// Number of the plan's packages still to install, and of those the
/// system already has.
pub fn install_counts(plan: &InstallPlan, sys: &SystemStatus) -> (r: (usize, usize))
    requires
        plan.official@.len() + plan.aur@.len() <= usize::MAX,
    ensures
        r.0 == crate::estimate::pending_spec(plan.official@, sys.official@, sys.aur@).len()
            + crate::estimate::pending_spec(plan.aur@, sys.official@, sys.aur@).len(),
        r.1 == present_spec(plan.official@, sys.official@, sys.aur@).len() + present_spec(
            plan.aur@,
            sys.official@,
            sys.aur@,
        ).len(),
{
    let (a, b) = split_installed(&plan.official, sys);
    let (c, d) = split_installed(&plan.aur, sys);
    proof {
        lemma_split_sizes(plan.official@, sys.official@, sys.aur@);
        lemma_split_sizes(plan.aur@, sys.official@, sys.aur@);
    }
    (a.len() + c.len(), b.len() + d.len())
}

/// Every package is either still to install or already present.
pub proof fn lemma_split_sizes(list: Seq<String>, off: Seq<String>, aur: Seq<String>)
    ensures
        crate::estimate::pending_spec(list, off, aur).len() + present_spec(list, off, aur).len()
            == list.len(),
    decreases list.len(),
{
    if list.len() > 0 {
        lemma_split_sizes(list.drop_last(), off, aur);
    }
}

/// The key help of each screen.
pub open spec fn help_spec(mode: Mode) -> Seq<char> {
    match mode {
        Mode::Welcome => "Enter: comenzar · q: salir"@,
        Mode::Main => "↑/↓: mover · Enter: abrir · q: salir"@,
        Mode::Search => "Tab: fuente · i: editar · Space: anadir · Enter: volver · q: menu"@,
        Mode::System => "↑/↓: campo · Enter: picker · Space: marcar · q: menu"@,
        Mode::LoadProfile => "↑/↓: mover · Enter: cargar · q: menu"@,
        Mode::SaveProfile => "Escribe el nombre · Enter: guardar · Esc: cancelar"@,
        Mode::Review => "Enter: instalar · p: re-ejecutar pre-flight · s: salir · Esc: volver"@,
        Mode::PickLocale | Mode::PickTimezone | Mode::PickKeymap => {
            "Escribe: filtrar · Enter: elegir · Esc: cancelar"@
        },
        _ => "↑/↓: mover · Space: marcar · q: volver al menu"@,
    }
}

/// The key help shown at the bottom of a screen.
pub fn help_text(mode: Mode) -> (r: &'static str)
    ensures
        r@ == help_spec(mode),
{
    match mode {
        Mode::Welcome => "Enter: comenzar · q: salir",
        Mode::Main => "↑/↓: mover · Enter: abrir · q: salir",
        Mode::Search => "Tab: fuente · i: editar · Space: anadir · Enter: volver · q: menu",
        Mode::System => "↑/↓: campo · Enter: picker · Space: marcar · q: menu",
        Mode::LoadProfile => "↑/↓: mover · Enter: cargar · q: menu",
        Mode::SaveProfile => "Escribe el nombre · Enter: guardar · Esc: cancelar",
        Mode::Review => "Enter: instalar · p: re-ejecutar pre-flight · s: salir · Esc: volver",
        Mode::PickLocale | Mode::PickTimezone | Mode::PickKeymap => {
            "Escribe: filtrar · Enter: elegir · Esc: cancelar"
        },
        _ => "↑/↓: mover · Space: marcar · q: volver al menu",
    }
}

/// Sorting and removing repeats leaves a strictly increasing list: no
/// package of a plan is listed twice.
pub proof fn lemma_plan_lists_unique(names: Seq<Seq<char>>)
    ensures
        forall|i: int, j: int|
            0 <= i < j < dedup_texts(sort_texts(names)).len() ==> crate::order::text_lt(
                #[trigger] dedup_texts(sort_texts(names))[i],
                #[trigger] dedup_texts(sort_texts(names))[j],
            ),
        forall|i: int, j: int|
            0 <= i < j < dedup_texts(sort_texts(names)).len() ==> dedup_texts(sort_texts(names))[i]
                != dedup_texts(sort_texts(names))[j],
{
    crate::order::lemma_sort_by_key_sorted(names, |t: Seq<char>| crate::order::itself(t));
    crate::order::lemma_dedup_of_sorted_is_strict(sort_texts(names));
    let d = dedup_texts(sort_texts(names));
    assert forall|i: int, j: int| 0 <= i < j < d.len() implies d[i] != d[j] by {
        assert(crate::order::text_lt(d[i], d[j]));
        if d[i] == d[j] {
            crate::order::lemma_text_lt_irreflexive(d[i]);
        }
    }
}

/// A plan never carries a setting the validators reject: each setting of
/// `build_plan` is absent or valid.
pub proof fn lemma_plan_settings_valid(s: Seq<char>, kind: Setting)
    ensures
        checked_setting(s, kind) matches Some(t) ==> setting_valid(kind, t) && t == trim_seq(s),
{
}

} // verus!
