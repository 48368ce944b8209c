//! Pre-flight checks: whether the system is ready to install, for someone who
//! has just installed Arch and may still have things left unconfigured
//! (sudo, network, a locked pacman database, disk space, AUR tools).
//!
//! Every check is independent; one failing does not stop the others. The
//! probes (running commands, opening sockets) happen outside the library and
//! arrive here as a `PreflightProbe`.

use vstd::prelude::*;

use crate::estimate::{human_bytes, human_bytes_spec, PlanEstimate};
use crate::model::InstallPlan;
use crate::text::{cat, cat3, dec, dec_string, owned, views};

verus! {

/// Verdict of one check.
#[derive(Debug, Clone, Copy, PartialEq, Eq, Structural)]
pub enum CheckStatus {
    /// Fine.
    Pass,
    /// Does not block the installation, but the user should know.
    Warn,
    /// Critical: the installation will probably fail.
    Fail,
}

/// One check with its verdict and an explanation.
#[derive(Debug, Clone)]
pub struct PreflightCheck {
    pub name: &'static str,
    pub status: CheckStatus,
    pub detail: String,
}

/// All the checks of one run.
#[derive(Debug, Clone)]
pub struct PreflightReport {
    pub checks: Vec<PreflightCheck>,
}

/// What the system probes found.
#[derive(Debug, Clone)]
pub struct PreflightProbe {
    /// The program runs as root.
    pub is_root: bool,
    /// `sudo --version` succeeded.
    pub sudo_installed: bool,
    /// `sudo -n true`: `Some(true)` without password, `Some(false)` asks for
    /// one, `None` could not be run.
    pub sudo_nopasswd: Option<bool>,
    /// The first host a TCP connection succeeded to, if any.
    pub internet: Option<String>,
    /// `/var/lib/pacman/db.lck` exists.
    pub pacman_lock: bool,
    /// Free bytes on `/`, if `df` could be read.
    pub free_bytes: Option<u64>,
    /// A file could be created directly in `/etc`.
    pub etc_writable: bool,
    /// `git --version` succeeded.
    pub git: bool,
    /// `make --version` succeeded.
    pub make: bool,
    /// `gcc --version` succeeded.
    pub gcc: bool,
    /// `reflector --version` succeeded.
    pub reflector: bool,
}

// ----------------------------------------------------------------------
// Specifications
// ----------------------------------------------------------------------

/// The data of a check: name, verdict, explanation.
pub open spec fn check_view(c: PreflightCheck) -> (Seq<char>, CheckStatus, Seq<char>) {
    (c.name@, c.status, c.detail@)
}

/// The data of every check of a report.
pub open spec fn report_view(r: PreflightReport) -> Seq<(Seq<char>, CheckStatus, Seq<char>)> {
    r.checks@.map_values(|c: PreflightCheck| check_view(c))
}

pub open spec fn not_root_spec(is_root: bool) -> (Seq<char>, CheckStatus, Seq<char>) {
    if is_root {
        (
            "ejecutando como root"@,
            CheckStatus::Warn,
            "makepkg/yay no deben correr como root; la instalacion de AUR puede fallar"@,
        )
    } else {
        ("ejecutando como root"@, CheckStatus::Pass, "ok (usuario normal)"@)
    }
}

pub open spec fn sudo_installed_spec(found: bool) -> (Seq<char>, CheckStatus, Seq<char>) {
    if found {
        ("sudo instalado"@, CheckStatus::Pass, "ok"@)
    } else {
        (
            "sudo instalado"@,
            CheckStatus::Fail,
            "sudo no esta en el PATH; instala 'sudo' y aniade tu usuario al grupo wheel"@,
        )
    }
}

pub open spec fn sudo_nopasswd_spec(r: Option<bool>) -> (Seq<char>, CheckStatus, Seq<char>) {
    match r {
        Some(true) => ("sudo sin password"@, CheckStatus::Pass, "ok (NOPASSWD configurado)"@),
        Some(false) => (
            "sudo sin password"@,
            CheckStatus::Warn,
            "sudo pedira contrasena durante la instalacion; manten la terminal cerca"@,
        ),
        None => (
            "sudo sin password"@,
            CheckStatus::Warn,
            "no se pudo comprobar sudo; la instalacion podria fallar"@,
        ),
    }
}

pub open spec fn internet_spec(host: Option<Seq<char>>) -> (Seq<char>, CheckStatus, Seq<char>) {
    match host {
        Some(h) => ("conexion a internet"@, CheckStatus::Pass, "ok ("@ + h + ")"@),
        None => (
            "conexion a internet"@,
            CheckStatus::Fail,
            "no se pudo conectar a archlinux.org ni a 1.1.1.1; revisa tu red/DNS"@,
        ),
    }
}

pub open spec fn pacman_db_spec(lock: bool) -> (Seq<char>, CheckStatus, Seq<char>) {
    if lock {
        (
            "DB de pacman"@,
            CheckStatus::Fail,
            "existe /var/lib/pacman/db.lck; otra instancia corre o quedo colgado"@,
        )
    } else {
        ("DB de pacman"@, CheckStatus::Pass, "ok (sin lock)"@)
    }
}

/// Below this many free bytes the disk check fails.
pub open spec fn disk_fail_below() -> nat {
    500 * 1024 * 1024
}

/// Below this many free bytes the disk check warns.
pub open spec fn disk_warn_below() -> nat {
    2 * 1024 * 1024 * 1024
}

pub open spec fn disk_space_spec(free: Option<u64>) -> (Seq<char>, CheckStatus, Seq<char>) {
    match free {
        None => ("espacio en disco"@, CheckStatus::Warn, "no se pudo leer df"@),
        Some(b) => if b < disk_fail_below() {
            (
                "espacio en disco"@,
                CheckStatus::Fail,
                "quedan "@ + human_bytes_spec(b as nat)
                    + " libres; la instalacion probablemente no quepa"@,
            )
        } else if b < disk_warn_below() {
            (
                "espacio en disco"@,
                CheckStatus::Warn,
                "quedan "@ + human_bytes_spec(b as nat)
                    + " libres; recomendable tener al menos 5 GB"@,
            )
        } else {
            ("espacio en disco"@, CheckStatus::Pass, human_bytes_spec(b as nat) + " libres"@)
        },
    }
}

pub open spec fn etc_writable_spec(is_root: bool, writable: bool) -> (
    Seq<char>,
    CheckStatus,
    Seq<char>,
) {
    if is_root {
        ("/etc escribible"@, CheckStatus::Pass, "ok (root)"@)
    } else if writable {
        ("/etc escribible"@, CheckStatus::Pass, "ok"@)
    } else {
        (
            "/etc escribible"@,
            CheckStatus::Warn,
            "no se puede escribir directamente; el instalador usara sudo"@,
        )
    }
}

pub open spec fn aur_tool_spec(pkg: Seq<char>, found: bool) -> (Seq<char>, CheckStatus, Seq<char>) {
    if found {
        ("herramienta AUR"@, CheckStatus::Pass, pkg + " instalado (ok)"@)
    } else {
        (
            "herramienta AUR"@,
            CheckStatus::Warn,
            pkg + " no esta instalado; el instalador lo agregara al setup"@,
        )
    }
}

pub open spec fn reflector_spec(region: Seq<char>, found: bool) -> (
    Seq<char>,
    CheckStatus,
    Seq<char>,
) {
    if found {
        ("reflector"@, CheckStatus::Pass, "ok (region "@ + region + " se aplicara antes de -Syu)"@)
    } else {
        (
            "reflector"@,
            CheckStatus::Warn,
            "no esta instalado; el instalador lo agregara antes de aplicar la region "@ + region,
        )
    }
}

/// The base checks, plus the AUR tool checks when the plan needs the AUR.
pub open spec fn run_spec(needs_aur: bool, p: PreflightProbe) -> Seq<
    (Seq<char>, CheckStatus, Seq<char>),
> {
    let base = seq![
        not_root_spec(p.is_root),
        sudo_installed_spec(p.sudo_installed),
        sudo_nopasswd_spec(p.sudo_nopasswd),
        internet_spec(
            match p.internet {
                Some(h) => Some(h@),
                None => None,
            },
        ),
        pacman_db_spec(p.pacman_lock),
        disk_space_spec(p.free_bytes),
        etc_writable_spec(p.is_root, p.etc_writable),
    ];
    if needs_aur {
        base + seq![
            aur_tool_spec("git"@, p.git),
            aur_tool_spec("make"@, p.make),
            aur_tool_spec("gcc"@, p.gcc),
        ]
    } else {
        base
    }
}

/// The report has exactly one pacman-database check; it fails exactly when
/// the lock file `/var/lib/pacman/db.lck` was found, and passes otherwise.
pub proof fn lemma_pacman_db_check(needs_aur: bool, p: PreflightProbe)
    ensures
        exists|i: int|
            0 <= i < run_spec(needs_aur, p).len() && (#[trigger] run_spec(needs_aur, p)[i]).0
                == "DB de pacman"@,
        forall|i: int|
            0 <= i < run_spec(needs_aur, p).len() && (#[trigger] run_spec(needs_aur, p)[i]).0
                == "DB de pacman"@ ==> {
                &&& (run_spec(needs_aur, p)[i].1 == CheckStatus::Fail <==> p.pacman_lock)
                &&& (!p.pacman_lock ==> run_spec(needs_aur, p)[i].1 == CheckStatus::Pass)
            },
{
    reveal_strlit("DB de pacman");
    reveal_strlit("ejecutando como root");
    reveal_strlit("sudo instalado");
    reveal_strlit("sudo sin password");
    reveal_strlit("conexion a internet");
    reveal_strlit("espacio en disco");
    reveal_strlit("/etc escribible");
    reveal_strlit("herramienta AUR");
    let r = run_spec(needs_aur, p);
    assert(r[4].0 == "DB de pacman"@);
    assert forall|i: int| 0 <= i < r.len() && (#[trigger] r[i]).0 == "DB de pacman"@ implies i == 4 by {
        if i != 4 {
            assert(r[i].0.len() != "DB de pacman"@.len());
        }
    }
}

/// What each check of the report says of the probes: the report has seven
/// checks, three more (the AUR tools) when the plan needs the AUR; sudo
/// missing, no internet or a disk under 500 MiB free fail; running as root,
/// a sudo that asks for a password (or could not be asked), `/etc` not
/// writable without root, a disk under 2 GiB free or unread, and a missing
/// AUR tool warn; everything else passes.
pub proof fn lemma_check_verdicts(needs_aur: bool, p: PreflightProbe)
    ensures
        run_spec(needs_aur, p).len() == if needs_aur {
            10int
        } else {
            7int
        },
        forall|i: int|
            0 <= i < run_spec(needs_aur, p).len() ==> {
                let c = #[trigger] run_spec(needs_aur, p)[i];
                &&& c.0 == "ejecutando como root"@ ==> c.1 == (if p.is_root {
                    CheckStatus::Warn
                } else {
                    CheckStatus::Pass
                })
                &&& c.0 == "sudo instalado"@ ==> c.1 == (if p.sudo_installed {
                    CheckStatus::Pass
                } else {
                    CheckStatus::Fail
                })
                &&& c.0 == "sudo sin password"@ ==> c.1 == (if p.sudo_nopasswd == Some(true) {
                    CheckStatus::Pass
                } else {
                    CheckStatus::Warn
                })
                &&& c.0 == "conexion a internet"@ ==> c.1 == (if p.internet is Some {
                    CheckStatus::Pass
                } else {
                    CheckStatus::Fail
                })
                &&& c.0 == "espacio en disco"@ ==> c.1 == (match p.free_bytes {
                    Some(b) => if b < 500 * 1024 * 1024 {
                        CheckStatus::Fail
                    } else if b < 2 * 1024 * 1024 * 1024 {
                        CheckStatus::Warn
                    } else {
                        CheckStatus::Pass
                    },
                    None => CheckStatus::Warn,
                })
                &&& c.0 == "/etc escribible"@ ==> c.1 == (if p.is_root || p.etc_writable {
                    CheckStatus::Pass
                } else {
                    CheckStatus::Warn
                })
                &&& c.0 == "herramienta AUR"@ ==> needs_aur && c.1 != CheckStatus::Fail
            },
{
    reveal_strlit("DB de pacman");
    reveal_strlit("ejecutando como root");
    reveal_strlit("sudo instalado");
    reveal_strlit("sudo sin password");
    reveal_strlit("conexion a internet");
    reveal_strlit("espacio en disco");
    reveal_strlit("/etc escribible");
    reveal_strlit("herramienta AUR");
    let r = run_spec(needs_aur, p);
    let names = seq![
        "ejecutando como root"@,
        "sudo instalado"@,
        "sudo sin password"@,
        "conexion a internet"@,
        "DB de pacman"@,
        "espacio en disco"@,
        "/etc escribible"@,
    ];
    assert forall|i: int| 0 <= i < 7 implies (#[trigger] r[i]).0 == names[i] by {}
    assert forall|i: int| 0 <= i < 7 implies forall|j: int|
        0 <= j < 7 && j != i ==> #[trigger] names[i] != #[trigger] names[j] by {
        assert forall|j: int| 0 <= j < 7 && j != i implies #[trigger] names[i] != #[trigger] names[j] by {
            if names[i].len() == names[j].len() {
                assert(names[i][0] != names[j][0]);
            }
        }
    }
    assert forall|i: int| 7 <= i < r.len() implies (#[trigger] r[i]).0 == "herramienta AUR"@ && needs_aur
        && r[i].1 != CheckStatus::Fail by {}
    assert forall|i: int| 0 <= i < 7 implies (#[trigger] r[i]).0 != "herramienta AUR"@ by {
        if names[i].len() == "herramienta AUR"@.len() {
            assert(names[i][0] != "herramienta AUR"@[0]);
        }
    }
    assert(names[0] == names[0] && names[1] == names[1] && names[2] == names[2] && names[3]
        == names[3] && names[4] == names[4] && names[5] == names[5] && names[6] == names[6]);
    assert(r[0] == not_root_spec(p.is_root));
    assert(r[1] == sudo_installed_spec(p.sudo_installed));
    assert(r[2] == sudo_nopasswd_spec(p.sudo_nopasswd));
    assert(r[3].1 == (if p.internet is Some {
        CheckStatus::Pass
    } else {
        CheckStatus::Fail
    }));
    assert(r[5] == disk_space_spec(p.free_bytes));
    assert(r[6] == etc_writable_spec(p.is_root, p.etc_writable));
}

/// Note about AUR packages whose size is unknown.
pub open spec fn unknown_note(unknown: nat) -> Seq<char> {
    if unknown > 0 {
        " (mas "@ + dec(unknown) + " paquete(s) AUR sin tamano conocido)"@
    } else {
        Seq::empty()
    }
}

/// The check of the free space against the estimate: `None` when the plan
/// installs nothing measurable; fails when it does not fit; warns when less
/// than a fifth of the free space would remain.
pub open spec fn disk_for_estimate_spec(e: PlanEstimate) -> Option<
    (Seq<char>, CheckStatus, Seq<char>),
> {
    let needed = e.official.install_bytes + e.aur.install_bytes;
    let unknown = e.official.unknown + e.aur.unknown;
    if needed == 0 && unknown == 0 {
        None
    } else {
        match e.free_bytes {
            None => Some(
                (
                    "espacio para el plan"@,
                    CheckStatus::Warn,
                    "no se pudo leer df; comprueba el espacio manualmente"@,
                ),
            ),
            Some(free) => if free < needed {
                Some(
                    (
                        "espacio para el plan"@,
                        CheckStatus::Fail,
                        "necesitas "@ + human_bytes_spec(needed as nat) + " pero solo hay "@
                            + human_bytes_spec(free as nat) + " libres en /"@,
                    ),
                )
            } else {
                let detail = "instalara "@ + human_bytes_spec(needed as nat) + "; quedaran "@
                    + human_bytes_spec((free - needed) as nat) + " libres"@ + unknown_note(
                    unknown as nat,
                );
                if free - needed < free / 5 {
                    Some(("espacio para el plan"@, CheckStatus::Warn, detail))
                } else {
                    Some(("espacio para el plan"@, CheckStatus::Pass, detail))
                }
            },
        }
    }
}

/// The checks of `run_for_plan`: those of `run`, the space check when there is
/// one, and the reflector check when a mirror region is chosen.
pub open spec fn run_for_plan_spec(plan: InstallPlan, e: PlanEstimate, p: PreflightProbe) -> Seq<
    (Seq<char>, CheckStatus, Seq<char>),
> {
    let a = run_spec(plan.aur@.len() > 0, p);
    let b = match disk_for_estimate_spec(e) {
        Some(c) => a.push(c),
        None => a,
    };
    match plan.mirror_region {
        Some(r) => b.push(reflector_spec(r@, p.reflector)),
        None => b,
    }
}

/// Some check of the list has the given verdict.
pub open spec fn any_status(cs: Seq<(Seq<char>, CheckStatus, Seq<char>)>, s: CheckStatus) -> bool {
    exists|i: int| 0 <= i < cs.len() && (#[trigger] cs[i]).1 == s
}

/// Width of the name column in the log.
pub open spec fn pad_to(s: Seq<char>, w: nat) -> Seq<char> {
    if s.len() < w {
        s + Seq::new((w - s.len()) as nat, |i: int| ' ')
    } else {
        s
    }
}

/// Marker of a verdict in the log.
pub open spec fn marker(s: CheckStatus) -> Seq<char> {
    match s {
        CheckStatus::Pass => "  OK  "@,
        CheckStatus::Warn => " WARN "@,
        CheckStatus::Fail => " FAIL "@,
    }
}

/// The log line of a check.
pub open spec fn log_line(c: (Seq<char>, CheckStatus, Seq<char>)) -> Seq<char> {
    "  ["@ + marker(c.1) + "] "@ + pad_to(c.0, 22) + " "@ + c.2
}

// ----------------------------------------------------------------------
// Checks
// ----------------------------------------------------------------------

impl PreflightCheck {
    fn ok(name: &'static str, detail: String) -> (c: PreflightCheck)
        ensures
            c.name == name,
            c.status == CheckStatus::Pass,
            c.detail == detail,
    {
        PreflightCheck { name, status: CheckStatus::Pass, detail }
    }

    fn warn(name: &'static str, detail: String) -> (c: PreflightCheck)
        ensures
            c.name == name,
            c.status == CheckStatus::Warn,
            c.detail == detail,
    {
        PreflightCheck { name, status: CheckStatus::Warn, detail }
    }

    fn fail(name: &'static str, detail: String) -> (c: PreflightCheck)
        ensures
            c.name == name,
            c.status == CheckStatus::Fail,
            c.detail == detail,
    {
        PreflightCheck { name, status: CheckStatus::Fail, detail }
    }
}

fn check_not_root(is_root: bool) -> (c: PreflightCheck)
    ensures
        check_view(c) == not_root_spec(is_root),
{
    if is_root {
        PreflightCheck::warn(
            "ejecutando como root",
            owned("makepkg/yay no deben correr como root; la instalacion de AUR puede fallar"),
        )
    } else {
        PreflightCheck::ok("ejecutando como root", owned("ok (usuario normal)"))
    }
}

fn check_sudo_installed(found: bool) -> (c: PreflightCheck)
    ensures
        check_view(c) == sudo_installed_spec(found),
{
    if found {
        PreflightCheck::ok("sudo instalado", owned("ok"))
    } else {
        PreflightCheck::fail(
            "sudo instalado",
            owned("sudo no esta en el PATH; instala 'sudo' y aniade tu usuario al grupo wheel"),
        )
    }
}

fn check_sudo_nopasswd(r: Option<bool>) -> (c: PreflightCheck)
    ensures
        check_view(c) == sudo_nopasswd_spec(r),
{
    match r {
        Some(true) => PreflightCheck::ok("sudo sin password", owned("ok (NOPASSWD configurado)")),
        Some(false) => PreflightCheck::warn(
            "sudo sin password",
            owned("sudo pedira contrasena durante la instalacion; manten la terminal cerca"),
        ),
        None => PreflightCheck::warn(
            "sudo sin password",
            owned("no se pudo comprobar sudo; la instalacion podria fallar"),
        ),
    }
}

fn check_internet(host: &Option<String>) -> (c: PreflightCheck)
    ensures
        check_view(c) == internet_spec(
            match *host {
                Some(h) => Some(h@),
                None => None,
            },
        ),
{
    match host {
        Some(h) => PreflightCheck::ok("conexion a internet", cat3("ok (", h.as_str(), ")")),
        None => PreflightCheck::fail(
            "conexion a internet",
            owned("no se pudo conectar a archlinux.org ni a 1.1.1.1; revisa tu red/DNS"),
        ),
    }
}

fn check_pacman_db(lock: bool) -> (c: PreflightCheck)
    ensures
        check_view(c) == pacman_db_spec(lock),
{
    if lock {
        PreflightCheck::fail(
            "DB de pacman",
            owned("existe /var/lib/pacman/db.lck; otra instancia corre o quedo colgado"),
        )
    } else {
        PreflightCheck::ok("DB de pacman", owned("ok (sin lock)"))
    }
}

fn check_disk_space(free: Option<u64>) -> (c: PreflightCheck)
    ensures
        check_view(c) == disk_space_spec(free),
{
    match free {
        None => PreflightCheck::warn("espacio en disco", owned("no se pudo leer df")),
        Some(b) => {
            let hb = human_bytes(b);
            if b < 500 * 1024 * 1024 {
                PreflightCheck::fail(
                    "espacio en disco",
                    cat3("quedan ", hb.as_str(), " libres; la instalacion probablemente no quepa"),
                )
            } else if b < 2 * 1024 * 1024 * 1024 {
                PreflightCheck::warn(
                    "espacio en disco",
                    cat3("quedan ", hb.as_str(), " libres; recomendable tener al menos 5 GB"),
                )
            } else {
                PreflightCheck::ok("espacio en disco", cat(hb.as_str(), " libres"))
            }
        },
    }
}

fn check_etc_writable(is_root: bool, writable: bool) -> (c: PreflightCheck)
    ensures
        check_view(c) == etc_writable_spec(is_root, writable),
{
    if is_root {
        return PreflightCheck::ok("/etc escribible", owned("ok (root)"));
    }
    if writable {
        PreflightCheck::ok("/etc escribible", owned("ok"))
    } else {
        PreflightCheck::warn(
            "/etc escribible",
            owned("no se puede escribir directamente; el instalador usara sudo"),
        )
    }
}

fn check_aur_tool(pkg: &str, found: bool) -> (c: PreflightCheck)
    ensures
        check_view(c) == aur_tool_spec(pkg@, found),
{
    if found {
        PreflightCheck::ok("herramienta AUR", cat(pkg, " instalado (ok)"))
    } else {
        PreflightCheck::warn(
            "herramienta AUR",
            cat(pkg, " no esta instalado; el instalador lo agregara al setup"),
        )
    }
}

fn check_reflector(region: &str, found: bool) -> (c: PreflightCheck)
    ensures
        check_view(c) == reflector_spec(region@, found),
{
    if found {
        PreflightCheck::ok("reflector", cat3("ok (region ", region, " se aplicara antes de -Syu)"))
    } else {
        PreflightCheck::warn(
            "reflector",
            cat("no esta instalado; el instalador lo agregara antes de aplicar la region ", region),
        )
    }
}

/// Contrasts the free space with the estimated size of the plan. `None` when
/// the plan installs nothing measurable.
pub fn check_disk_for_estimate(est: &PlanEstimate) -> (r: Option<PreflightCheck>)
    requires
        est.official.install_bytes + est.aur.install_bytes <= u64::MAX,
        est.official.unknown + est.aur.unknown <= u32::MAX,
    ensures
        match r {
            Some(c) => disk_for_estimate_spec(*est) == Some(check_view(c)),
            None => disk_for_estimate_spec(*est) is None,
        },
{
    let needed = est.total_install();
    let unknown = est.total_unknown();
    if needed == 0 && unknown == 0 {
        return None;
    }
    match est.free_bytes {
        None => Some(
            PreflightCheck::warn(
                "espacio para el plan",
                owned("no se pudo leer df; comprueba el espacio manualmente"),
            ),
        ),
        Some(free) => {
            if free < needed {
                let a = human_bytes(needed);
                let b = human_bytes(free);
                let d = cat3("necesitas ", a.as_str(), " pero solo hay ").concat(b.as_str()).concat(
                    " libres en /",
                );
                Some(PreflightCheck::fail("espacio para el plan", d))
            } else {
                let a = human_bytes(needed);
                let b = human_bytes(free - needed);
                let mut d = cat3("instalara ", a.as_str(), "; quedaran ").concat(b.as_str()).concat(
                    " libres",
                );
                if unknown > 0 {
                    let n = dec_string(unknown as u64);
                    d = d.concat(cat3(" (mas ", n.as_str(), " paquete(s) AUR sin tamano conocido)").as_str());
                }
                proof {
                    assert(d@ =~= "instalara "@ + human_bytes_spec(needed as nat) + "; quedaran "@
                        + human_bytes_spec((free - needed) as nat) + " libres"@ + unknown_note(
                        unknown as nat,
                    ));
                }
                if free - needed < free / 5 {
                    Some(PreflightCheck::warn("espacio para el plan", d))
                } else {
                    Some(PreflightCheck::ok("espacio para el plan", d))
                }
            }
        },
    }
}

impl PreflightReport {
    /// Runs every check on what the probes found. `plan_needs_aur` adds the
    /// checks of `git`, `make` and `gcc`, needed to build AUR packages.
    pub fn run(plan_needs_aur: bool, probe: &PreflightProbe) -> (r: PreflightReport)
        ensures
            report_view(r) == run_spec(plan_needs_aur, *probe),
    {
        let mut checks: Vec<PreflightCheck> = Vec::new();
        checks.push(check_not_root(probe.is_root));
        checks.push(check_sudo_installed(probe.sudo_installed));
        checks.push(check_sudo_nopasswd(probe.sudo_nopasswd));
        checks.push(check_internet(&probe.internet));
        checks.push(check_pacman_db(probe.pacman_lock));
        checks.push(check_disk_space(probe.free_bytes));
        checks.push(check_etc_writable(probe.is_root, probe.etc_writable));
        if plan_needs_aur {
            checks.push(check_aur_tool("git", probe.git));
            checks.push(check_aur_tool("make", probe.make));
            checks.push(check_aur_tool("gcc", probe.gcc));
        }
        let r = PreflightReport { checks };
        assert(report_view(r) =~= run_spec(plan_needs_aur, *probe));
        r
    }

    /// Like `run`, plus the check of the free space against the estimate of
    /// the plan, and the reflector check when the plan picks a mirror region.
    pub fn run_for_plan(plan: &InstallPlan, est: &PlanEstimate, probe: &PreflightProbe) -> (r:
        PreflightReport)
        requires
            est.official.install_bytes + est.aur.install_bytes <= u64::MAX,
            est.official.unknown + est.aur.unknown <= u32::MAX,
        ensures
            report_view(r) == run_for_plan_spec(*plan, *est, *probe),
    {
        let mut report = Self::run(plan.aur.len() > 0, probe);
        let ghost a = report_view(report);
        match check_disk_for_estimate(est) {
            Some(c) => {
                report.checks.push(c);
                assert(report_view(report) =~= a.push(check_view(c)));
            },
            None => {},
        }
        let ghost b = report_view(report);
        match &plan.mirror_region {
            Some(region) => {
                let c = check_reflector(region.as_str(), probe.reflector);
                report.checks.push(c);
                assert(report_view(report) =~= b.push(check_view(c)));
            },
            None => {},
        }
        report
    }

    /// `true` if no check failed (warnings do not count).
    pub fn all_ok(&self) -> (b: bool)
        ensures
            b == !any_status(report_view(*self), CheckStatus::Fail),
    {
        !self.has_failures()
    }

    /// Some check warned.
    pub fn has_warnings(&self) -> (b: bool)
        ensures
            b == any_status(report_view(*self), CheckStatus::Warn),
    {
        self.has_status(CheckStatus::Warn)
    }

    /// Some check failed.
    pub fn has_failures(&self) -> (b: bool)
        ensures
            b == any_status(report_view(*self), CheckStatus::Fail),
    {
        self.has_status(CheckStatus::Fail)
    }

    fn has_status(&self, s: CheckStatus) -> (b: bool)
        ensures
            b == any_status(report_view(*self), s),
    {
        let mut i: usize = 0;
        while i < self.checks.len()
            invariant
                i <= self.checks.len(),
                forall|j: int| 0 <= j < i ==> (#[trigger] self.checks@[j]).status != s,
            decreases self.checks.len() - i,
        {
            if self.checks[i].status == s {
                assert(report_view(*self)[i as int].1 == s);
                return true;
            }
            i = i + 1;
        }
        assert forall|j: int| 0 <= j < report_view(*self).len() implies (#[trigger] report_view(
            *self,
        )[j]).1 != s by {
            assert(report_view(*self)[j] == check_view(self.checks@[j]));
        }
        false
    }

    /// The lines the report writes to the log: a header, then one line per
    /// check with its marker, its name in a column of 22 and its detail.
    pub fn log_lines(&self) -> (r: Vec<String>)
        ensures
            views(r@) == seq!["==> Pre-flight checks"@] + report_view(*self).map_values(
                |c: (Seq<char>, CheckStatus, Seq<char>)| log_line(c),
            ),
    {
        let mut r: Vec<String> = Vec::new();
        r.push(owned("==> Pre-flight checks"));
        let mut i: usize = 0;
        while i < self.checks.len()
            invariant
                i <= self.checks.len(),
                views(r@) == seq!["==> Pre-flight checks"@] + report_view(*self).take(
                    i as int,
                ).map_values(|c: (Seq<char>, CheckStatus, Seq<char>)| log_line(c)),
            decreases self.checks.len() - i,
        {
            let c = &self.checks[i];
            let m = match c.status {
                CheckStatus::Pass => "  OK  ",
                CheckStatus::Warn => " WARN ",
                CheckStatus::Fail => " FAIL ",
            };
            let mut name = owned(c.name);
            let mut k: usize = c.name.unicode_len();
            while k < 22
                invariant
                    c.name@.len() <= k <= 22 || (k == c.name@.len() && k >= 22),
                    name@ == c.name@ + Seq::new((k - c.name@.len()) as nat, |j: int| ' '),
                decreases 22 - k,
            {
                let ghost before = name@;
                name = name.concat(" ");
                proof {
                    reveal_strlit(" ");
                    assert(name@ =~= c.name@ + Seq::new((k + 1 - c.name@.len()) as nat, |j: int| ' '));
                }
                k = k + 1;
            }
            let line = cat3("  [", m, "] ").concat(name.as_str()).concat(" ").concat(
                c.detail.as_str(),
            );
            let ghost before = r@;
            r.push(line);
            proof {
                assert(report_view(*self)[i as int] == check_view(*c));
                if c.name@.len() >= 22 {
                    assert(name@ =~= c.name@);
                }
                assert(name@ == pad_to(c.name@, 22));
                assert(line@ == log_line(check_view(*c)));
                assert(report_view(*self).take(i + 1) =~= report_view(*self).take(i as int).push(
                    check_view(*c),
                ));
                assert(views(r@) =~= views(before).push(line@));
            }
            i = i + 1;
        }
        assert(report_view(*self).take(self.checks@.len() as int) =~= report_view(*self));
        r
    }
}

/// A report with no check passes: no failure and no warning.
pub proof fn lemma_empty_report_ok(r: PreflightReport)
    requires
        r.checks@.len() == 0,
    ensures
        !any_status(report_view(r), CheckStatus::Fail),
        !any_status(report_view(r), CheckStatus::Warn),
{
}

/// A report from `run` has seven checks, ten when the plan needs the AUR.
pub proof fn lemma_run_check_count(needs_aur: bool, p: PreflightProbe)
    ensures
        run_spec(needs_aur, p).len() == if needs_aur {
            10nat
        } else {
            7nat
        },
{
}


/// The report for a plan is the base report, then the check of the space
/// the plan needs when there is one, then the reflector check when the plan
/// picks a mirror region.
pub proof fn lemma_plan_report_extends(plan: InstallPlan, e: PlanEstimate, p: PreflightProbe)
    ensures
        run_for_plan_spec(plan, e, p).len() == run_spec(plan.aur@.len() > 0, p).len() + (if disk_for_estimate_spec(
            e,
        ) is Some {
            1int
        } else {
            0int
        }) + (if plan.mirror_region is Some {
            1int
        } else {
            0int
        }),
        run_for_plan_spec(plan, e, p).take(run_spec(plan.aur@.len() > 0, p).len() as int) == run_spec(
            plan.aur@.len() > 0,
            p,
        ),
        plan.mirror_region is Some ==> run_for_plan_spec(plan, e, p).last().0 == "reflector"@,
{
    let a = run_spec(plan.aur@.len() > 0, p);
    let b = match disk_for_estimate_spec(e) {
        Some(c) => a.push(c),
        None => a,
    };
    assert(b.take(a.len() as int) =~= a);
    let r = run_for_plan_spec(plan, e, p);
    assert(r.take(a.len() as int) =~= a);
}

} // verus!
