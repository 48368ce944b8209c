//! Carrying out an installation plan: pacman, yay, the system settings, the
//! boot loader and the services.
//!
//! A failing package does not stop the rest: every step is logged and a
//! summary of successes and failures comes at the end.
//!
//! The installer is a machine that never touches the system itself. It is
//! resumed with the answer to its last request and says what to log and what
//! to do next (run a command, read a file, ...); the program around it does
//! that and resumes it with what happened.

use vstd::prelude::*;

use crate::detect::Bootloader;
use crate::model::{plan_has_microcode, plan_has_nvidia, InstallPlan};
use crate::preflight::PreflightReport;
use crate::text::{
    cat, cat3, chars_of, contains_seq, dec, dec_string, has_prefix, has_suffix, join, join_seq,
    lines, lines_seq, list_contains, list_has, lowercase, nonblank_lines, nonblank_lines_of,
    owned, str_eq, string_of, to_lowercase, trim_seq, views, vviews,
};

verus! {

/// Result of one installation step.
#[derive(Debug)]
pub struct StepResult {
    pub label: String,
    pub ok: bool,
}

/// How the installer runs.
#[derive(Debug)]
pub struct InstallOptions {
    /// Run nothing; only show the commands that would run.
    pub dry_run: bool,
    /// Avoid the questions of pacman and yay (`--noconfirm`).
    pub noconfirm: bool,
    /// Official packages already on the system: skipped without calling
    /// pacman.
    pub skip_official: Vec<String>,
    /// AUR packages already on the system: skipped without calling yay.
    pub skip_aur: Vec<String>,
}

impl Default for InstallOptions {
    fn default() -> (o: InstallOptions)
        ensures
            !o.dry_run,
            !o.noconfirm,
            o.skip_official@.len() == 0,
            o.skip_aur@.len() == 0,
    {
        InstallOptions {
            dry_run: false,
            noconfirm: false,
            skip_official: Vec::new(),
            skip_aur: Vec::new(),
        }
    }
}

/// The package `pkg` of manager `manager` is installed and is skipped.
pub open spec fn skip_spec(opts: InstallOptions, manager: Seq<char>, pkg: Seq<char>) -> bool {
    if manager == "pacman"@ {
        list_has(opts.skip_official@, pkg)
    } else {
        list_has(opts.skip_aur@, pkg)
    }
}

impl InstallOptions {
    /// Whether package `pkg` (of the manager `manager`) is already installed
    /// and must be skipped.
    pub fn should_skip(&self, manager: &str, pkg: &str) -> (b: bool)
        ensures
            b == skip_spec(*self, manager@, pkg@),
    {
        if str_eq(manager, "pacman") {
            list_contains(self.skip_official.as_slice(), pkg)
        } else {
            list_contains(self.skip_aur.as_slice(), pkg)
        }
    }
}

/// A systemd unit name: with `.service` added when it has no suffix.
pub open spec fn unit_spec(name: Seq<char>) -> Seq<char> {
    if name.contains('.') {
        name
    } else {
        name + ".service"@
    }
}

/// Normalizes a systemd unit name (adds `.service` when it has no suffix).
pub fn unit_name(name: &str) -> (r: String)
    ensures
        r@ == unit_spec(name@),
{
    let v = chars_of(name);
    if crate::text::has_char(v.as_slice(), '.') {
        assert(v@.contains('.') ==> exists|i: int| 0 <= i < v@.len() && v@[i] == '.');
        owned(name)
    } else {
        cat(name, ".service")
    }
}

/// A command as the log shows it: the program, a space, the arguments
/// separated by spaces.
pub open spec fn command_text(program: Seq<char>, args: Seq<Seq<char>>) -> Seq<char> {
    program + " "@ + join_seq(args, " "@)
}

/// The command line of `program` with `args`, for the log.
pub fn command_line(program: &str, args: &Vec<String>) -> (r: String)
    ensures
        r@ == command_text(program@, views(args@)),
{
    let j = join(args.as_slice(), " ");
    cat3(program, " ", j.as_str())
}

/// Hint for a failed command, chosen by the program and by what its error
/// output mentions (ignoring case): a package not found, the pacman lock
/// held, a signature or keyring problem.
pub open spec fn hint_spec(program: Seq<char>, stderr: Seq<char>) -> Option<Seq<char>> {
    lowered_hint_spec(program, lowercase(stderr))
}

/// The hint for `program` from its error output already in lower case.
pub open spec fn lowered_hint_spec(program: Seq<char>, lower: Seq<char>) -> Option<Seq<char>> {
    let not_found = contains_seq(lower, "target not found"@) || contains_seq(
        lower,
        "package not found"@,
    );
    let lock_held = contains_seq(lower, "another program holds the lock"@) || contains_seq(
        lower,
        "database is locked"@,
    );
    let keyring = contains_seq(lower, "signature"@) || contains_seq(lower, "keyring"@)
        || contains_seq(lower, "trust"@);
    if program == "sudo"@ {
        Some(
            "comprueba que tu usuario tenga sudo y que la sesion no haya expirado (vuelve a intentarlo)."@,
        )
    } else if program == "pacman"@ {
        if not_found {
            Some(
                "el paquete no existe en los repos activos; revisa el nombre, los repos habilitados en /etc/pacman.conf o ejecuta 'pacman -Ss <nombre>'."@,
            )
        } else if lock_held {
            Some(
                "otra instancia de pacman esta corriendo o el lock quedo colgado; ejecuta 'sudo rm /var/lib/pacman/db.lck' si es seguro."@,
            )
        } else if keyring {
            Some(
                "problema con la firma de la base de datos; ejecuta 'sudo pacman-key --refresh-keys' y vuelve a intentar."@,
            )
        } else {
            Some(
                "ejecuta 'sudo pacman -Syu' manualmente; si el problema persiste, revisa /etc/pacman.conf y los mirrors."@,
            )
        }
    } else if program == "yay"@ || program == "paru"@ {
        if not_found {
            Some("el paquete no existe en el AUR; revisa el nombre en https://aur.archlinux.org."@)
        } else {
            Some(
                "los paquetes AUR se compilan localmente; revisa tu toolchain (gcc, make, base-devel) y la salida completa arriba."@,
            )
        }
    } else if program == "makepkg"@ {
        Some(
            "fallo la compilacion del paquete; revisa las dependencias de compilacion (makedeps) y la salida completa arriba."@,
        )
    } else if program == "git"@ {
        Some(
            "comprueba tu conexion a internet y que 'git' este instalado (ya deberia estarlo tras el setup AUR)."@,
        )
    } else if program == "systemctl"@ {
        Some(
            "comprueba que systemd este corriendo y que la unidad exista ('systemctl list-unit-files | grep <nombre>')."@,
        )
    } else if program == "locale-gen"@ {
        Some("el locale puede no ser valido; revisa /etc/locale.gen."@)
    } else if program == "grub-mkconfig"@ {
        Some("comprueba que /boot este montado y que GRUB este instalado."@)
    } else if program == "ln"@ {
        Some("el destino puede no existir; revisa la ruta del archivo o enlace simbolico."@)
    } else {
        None
    }
}

/// A hint for what to check after `program` failed with the error output
/// `stderr`.
pub fn hint_for_failure(program: &str, stderr: &str) -> (r: Option<String>)
    ensures
        crate::text::oview(r) == hint_spec(program@, stderr@),
{
    let lower = to_lowercase(stderr);
    hint_for_lowered(program, lower.as_str())
}

/// A hint for what to check after `program` failed, from its error output
/// in lower case.
pub fn hint_for_lowered(program: &str, lower: &str) -> (r: Option<String>)
    ensures
        crate::text::oview(r) == lowered_hint_spec(program@, lower@),
{
    let lc = chars_of(lower);
    let l = lc.as_slice();
    let not_found = crate::text::has_text(l, "target not found") || crate::text::has_text(
        l,
        "package not found",
    );
    let lock_held = crate::text::has_text(l, "another program holds the lock")
        || crate::text::has_text(l, "database is locked");
    let keyring = crate::text::has_text(l, "signature") || crate::text::has_text(l, "keyring")
        || crate::text::has_text(l, "trust");
    if str_eq(program, "sudo") {
        Some(
            owned(
                "comprueba que tu usuario tenga sudo y que la sesion no haya expirado (vuelve a intentarlo).",
            ),
        )
    } else if str_eq(program, "pacman") {
        if not_found {
            Some(
                owned(
                    "el paquete no existe en los repos activos; revisa el nombre, los repos habilitados en /etc/pacman.conf o ejecuta 'pacman -Ss <nombre>'.",
                ),
            )
        } else if lock_held {
            Some(
                owned(
                    "otra instancia de pacman esta corriendo o el lock quedo colgado; ejecuta 'sudo rm /var/lib/pacman/db.lck' si es seguro.",
                ),
            )
        } else if keyring {
            Some(
                owned(
                    "problema con la firma de la base de datos; ejecuta 'sudo pacman-key --refresh-keys' y vuelve a intentar.",
                ),
            )
        } else {
            Some(
                owned(
                    "ejecuta 'sudo pacman -Syu' manualmente; si el problema persiste, revisa /etc/pacman.conf y los mirrors.",
                ),
            )
        }
    } else if str_eq(program, "yay") || str_eq(program, "paru") {
        if not_found {
            Some(
                owned(
                    "el paquete no existe en el AUR; revisa el nombre en https://aur.archlinux.org.",
                ),
            )
        } else {
            Some(
                owned(
                    "los paquetes AUR se compilan localmente; revisa tu toolchain (gcc, make, base-devel) y la salida completa arriba.",
                ),
            )
        }
    } else if str_eq(program, "makepkg") {
        Some(
            owned(
                "fallo la compilacion del paquete; revisa las dependencias de compilacion (makedeps) y la salida completa arriba.",
            ),
        )
    } else if str_eq(program, "git") {
        Some(
            owned(
                "comprueba tu conexion a internet y que 'git' este instalado (ya deberia estarlo tras el setup AUR).",
            ),
        )
    } else if str_eq(program, "systemctl") {
        Some(
            owned(
                "comprueba que systemd este corriendo y que la unidad exista ('systemctl list-unit-files | grep <nombre>').",
            ),
        )
    } else if str_eq(program, "locale-gen") {
        Some(owned("el locale puede no ser valido; revisa /etc/locale.gen."))
    } else if str_eq(program, "grub-mkconfig") {
        Some(owned("comprueba que /boot este montado y que GRUB este instalado."))
    } else if str_eq(program, "ln") {
        Some(owned("el destino puede no existir; revisa la ruta del archivo o enlace simbolico."))
    } else {
        None
    }
}

/// A whole number in decimal, with a minus sign when negative.
pub open spec fn int_text(i: int) -> Seq<char> {
    if i < 0 {
        "-"@ + dec((-i) as nat)
    } else {
        dec(i as nat)
    }
}

/// An exit code as `Option<i32>`'s debug form shows it.
pub open spec fn code_text(code: Option<i32>) -> Seq<char> {
    match code {
        Some(c) => "Some("@ + int_text(c as int) + ")"@,
        None => "None"@,
    }
}

fn code_string(code: Option<i32>) -> (r: String)
    ensures
        r@ == code_text(code),
{
    match code {
        Some(c) => {
            let wide = c as i64;
            let digits = if wide < 0 {
                let d = dec_string((-wide) as u64);
                cat("-", d.as_str())
            } else {
                dec_string(wide as u64)
            };
            cat3("Some(", digits.as_str(), ")")
        },
        None => owned("None"),
    }
}

/// At most the first `n` elements.
pub open spec fn at_most(s: Seq<Seq<char>>, n: nat) -> Seq<Seq<char>> {
    if s.len() <= n {
        s
    } else {
        s.take(n as int)
    }
}

/// The log lines of a failed command: the exit code and the command, up to
/// five non-blank lines of its error output (trimmed), and a hint when
/// there is one.
pub open spec fn failure_spec(
    program: Seq<char>,
    pretty: Seq<char>,
    stderr: Seq<char>,
    code: Option<i32>,
) -> Seq<Seq<char>> {
    seq!["  ! fallo (codigo "@ + code_text(code) + "): "@ + pretty] + at_most(
        nonblank_lines(stderr),
        5,
    ).map_values(|l: Seq<char>| "      | "@ + l) + match hint_spec(program, stderr) {
        Some(h) => seq!["      Sugerencia: "@ + h],
        None => Seq::empty(),
    }
}

/// What to log after `program`, shown as `pretty`, failed.
pub fn failure_lines(program: &str, pretty: &str, stderr: &str, code: Option<i32>) -> (r: Vec<
    String,
>)
    ensures
        views(r@) == failure_spec(program@, pretty@, stderr@, code),
{
    let mut out: Vec<String> = Vec::new();
    let c = code_string(code);
    let head = cat3("  ! fallo (codigo ", c.as_str(), "): ");
    out.push(cat(head.as_str(), pretty));
    let preview = nonblank_lines_of(stderr);
    let ghost pv = views(preview@);
    let n = if preview.len() < 5 {
        preview.len()
    } else {
        5
    };
    let ghost shown = at_most(pv, 5);
    assert(shown.len() == n);
    let mut i: usize = 0;
    while i < n
        invariant
            i <= n,
            n <= preview@.len(),
            pv == views(preview@),
            shown == at_most(pv, 5),
            shown.len() == n,
            views(out@) == seq!["  ! fallo (codigo "@ + code_text(code) + "): "@ + pretty@]
                + shown.take(i as int).map_values(|l: Seq<char>| "      | "@ + l),
        decreases n - i,
    {
        let ghost before = views(out@);
        out.push(cat("      | ", preview[i].as_str()));
        assert(shown[i as int] == pv[i as int]);
        assert(shown.take(i + 1).map_values(|l: Seq<char>| "      | "@ + l) =~= shown.take(
            i as int,
        ).map_values(|l: Seq<char>| "      | "@ + l).push("      | "@ + shown[i as int]));
        assert(views(out@) =~= before.push("      | "@ + shown[i as int]));
        i = i + 1;
    }
    assert(shown.take(n as int) =~= shown);
    let ghost body = views(out@);
    match hint_for_failure(program, stderr) {
        Some(h) => {
            out.push(cat("      Sugerencia: ", h.as_str()));
            assert(views(out@) =~= body + seq!["      Sugerencia: "@ + h@]);
        },
        None => {
            assert(views(out@) =~= body + Seq::<Seq<char>>::empty());
        },
    }
    out
}

/// Index of the first line that starts with `p`.
pub open spec fn first_with_prefix(ls: Seq<Seq<char>>, p: Seq<char>) -> Option<int>
    decreases ls.len(),
{
    if ls.len() == 0 {
        None
    } else if has_prefix(ls[0], p) {
        Some(0)
    } else {
        match first_with_prefix(ls.drop_first(), p) {
            Some(k) => Some(k + 1),
            None => None,
        }
    }
}

proof fn lemma_first_with_prefix(ls: Seq<Seq<char>>, p: Seq<char>)
    ensures
        match first_with_prefix(ls, p) {
            Some(k) => 0 <= k < ls.len() && has_prefix(ls[k], p) && forall|j: int|
                0 <= j < k ==> !has_prefix(#[trigger] ls[j], p),
            None => forall|j: int| 0 <= j < ls.len() ==> !has_prefix(#[trigger] ls[j], p),
        },
    decreases ls.len(),
{
    if ls.len() > 0 && !has_prefix(ls[0], p) {
        lemma_first_with_prefix(ls.drop_first(), p);
        assert forall|j: int| 1 <= j < ls.len() implies ls[j] == ls.drop_first()[j - 1] by {}
    }
}

/// `/etc/locale.gen` with the line of `loc` uncommented: the first line
/// that starts with `#`, the locale and a space loses its `#`. The lines are
/// joined with newlines and the final newline is kept. `None` when no line
/// is commented that way (the file then stays as it is).
pub open spec fn locale_gen_spec(body: Seq<char>, loc: Seq<char>) -> Option<Seq<char>> {
    let ls = lines_seq(body);
    match first_with_prefix(ls, "#"@ + loc + " "@) {
        Some(k) => {
            let joined = join_seq(ls.update(k, ls[k].drop_first()), "\n"@);
            Some(
                if has_suffix(body, "\n"@) && !has_suffix(joined, "\n"@) {
                    joined + "\n"@
                } else {
                    joined
                },
            )
        },
        None => None,
    }
}

/// Uncomments the line of locale `loc` in the contents of `/etc/locale.gen`.
pub fn uncomment_locale_line(body: &str, loc: &str) -> (r: Option<String>)
    ensures
        crate::text::oview(r) == locale_gen_spec(body@, loc@),
{
    let target_s = cat3("#", loc, " ");
    let target = chars_of(target_s.as_str());
    let ls = lines(body);
    let ghost lv = vviews(ls@);
    proof {
        lemma_first_with_prefix(lv, target@);
    }
    let mut k: usize = 0;
    while k < ls.len() && !crate::text::starts_with(ls[k].as_slice(), target.as_slice())
        invariant
            k <= ls.len(),
            lv == vviews(ls@),
            lv == lines_seq(body@),
            target@ == "#"@ + loc@ + " "@,
            forall|j: int| 0 <= j < k ==> !has_prefix(#[trigger] lv[j], target@),
        decreases ls.len() - k,
    {
        assert(lv[k as int] == ls@[k as int]@);
        k = k + 1;
    }
    if k == ls.len() {
        proof {
            match first_with_prefix(lv, target@) {
                Some(w) => {
                    assert(!has_prefix(lv[w], target@));
                },
                None => {},
            }
        }
        return None;
    }
    assert(lv[k as int] == ls@[k as int]@);
    assert(first_with_prefix(lv, target@) == Some(k as int)) by {
        match first_with_prefix(lv, target@) {
            Some(w) => {
                if w < k {
                    assert(!has_prefix(lv[w], target@));
                } else if w > k {
                    assert(!has_prefix(lv[k as int], target@));
                }
            },
            None => {},
        }
    }
    let mut parts: Vec<String> = Vec::new();
    let ghost newl = lv.update(k as int, lv[k as int].drop_first());
    let mut i: usize = 0;
    while i < ls.len()
        invariant
            i <= ls.len(),
            k < ls.len(),
            lv == vviews(ls@),
            newl == lv.update(k as int, lv[k as int].drop_first()),
            views(parts@) == newl.take(i as int),
            has_prefix(lv[k as int], "#"@ + loc@ + " "@),
        decreases ls.len() - i,
    {
        let ghost before = views(parts@);
        if i == k {
            let line = &ls[i];
            assert(line@.len() > 0) by {
                assert(("#"@ + loc@ + " "@).len() > 0) by {
                    reveal_strlit("#");
                }
            }
            let rest = crate::text::slice_range(line.as_slice(), 1, line.len());
            assert(rest@ =~= lv[k as int].drop_first());
            parts.push(string_of(rest.as_slice()));
        } else {
            parts.push(string_of(ls[i].as_slice()));
        }
        assert(views(parts@) =~= before.push(newl[i as int]));
        assert(newl.take(i + 1) =~= newl.take(i as int).push(newl[i as int]));
        i = i + 1;
    }
    assert(newl.take(ls.len() as int) =~= newl);
    let joined = join(parts.as_slice(), "\n");
    let bv = chars_of(body);
    let nl = chars_of("\n");
    let jv = chars_of(joined.as_str());
    if crate::text::ends_with(bv.as_slice(), nl.as_slice()) && !crate::text::ends_with(
        jv.as_slice(),
        nl.as_slice(),
    ) {
        Some(cat(joined.as_str(), "\n"))
    } else {
        Some(joined)
    }
}

/// The `/etc/hosts` line of a hostname.
pub open spec fn hosts_line_spec(host: Seq<char>) -> Seq<char> {
    "127.0.1.1 "@ + host + ".localdomain "@ + host + "\n"@
}

/// The `/etc/hosts` line that maps `host` to the loopback address.
pub fn hosts_line(host: &str) -> (r: String)
    ensures
        r@ == hosts_line_spec(host@),
{
    let a = cat3("127.0.1.1 ", host, ".localdomain ");
    cat3(a.as_str(), host, "\n")
}

/// The `sed` expression that appends kernel parameter `p` to
/// `GRUB_CMDLINE_LINUX_DEFAULT`.
pub open spec fn grub_expr_spec(p: Seq<char>) -> Seq<char> {
    "s/\\(GRUB_CMDLINE_LINUX_DEFAULT=\"[^\"]*\\)\"/\\1 "@ + p + "\"/"@
}

/// The `sed` expression that adds kernel parameter `p` to GRUB's default
/// command line.
pub fn grub_param_expr(p: &str) -> (r: String)
    ensures
        r@ == grub_expr_spec(p@),
{
    cat3("s/\\(GRUB_CMDLINE_LINUX_DEFAULT=\"[^\"]*\\)\"/\\1 ", p, "\"/")
}

/// Label and outcome of a step.
pub open spec fn result_view(r: StepResult) -> (Seq<char>, bool) {
    (r.label@, r.ok)
}

pub open spec fn result_views(v: Seq<StepResult>) -> Seq<(Seq<char>, bool)> {
    v.map_values(|r: StepResult| result_view(r))
}

/// The labels of the failed steps, in order.
pub open spec fn failed_labels(v: Seq<(Seq<char>, bool)>) -> Seq<Seq<char>>
    decreases v.len(),
{
    if v.len() == 0 {
        Seq::empty()
    } else if v.last().1 {
        failed_labels(v.drop_last())
    } else {
        failed_labels(v.drop_last()).push(v.last().0)
    }
}

/// Every step either succeeded or is among the failed ones.
pub proof fn lemma_failed_count(v: Seq<(Seq<char>, bool)>)
    ensures
        failed_labels(v).len() + v.filter(|r: (Seq<char>, bool)| r.1).len() == v.len(),
    decreases v.len(),
{
    reveal(Seq::filter);
    if v.len() > 0 {
        lemma_failed_count(v.drop_last());
    }
}

/// The final summary: how many steps went well, the failed ones one by
/// one, where the full log is, and that running again skips what is done.
pub open spec fn summary_spec(v: Seq<(Seq<char>, bool)>, log_path: Option<Seq<char>>) -> Seq<
    Seq<char>,
> {
    let failed = failed_labels(v);
    let ok = (v.len() - failed.len()) as nat;
    seq![Seq::<char>::empty(), "==> Resumen: "@ + dec(ok) + "/"@ + dec(v.len()) + " pasos correctos."@] + (if failed.len()
        == 0 {
        seq!["    Todo se instalo correctamente."@]
    } else {
        seq!["    "@ + dec(failed.len()) + " paso(s) fallaron:"@] + failed.map_values(
            |l: Seq<char>| "      - "@ + l,
        ) + seq!["    Cada fallo se registro en el log con su 'stderr' y una sugerencia."@]
    }) + seq![
        match log_path {
            Some(p) => "    Log completo: "@ + p,
            None => "    (No se pudo crear el archivo de log; revisa los permisos de ~/.local/state/.)"@,
        },
    ] + (if failed.len() == 0 {
        Seq::empty()
    } else {
        seq!["    Puedes volver a ejecutar el programa: los pasos ya completados se saltaran."@]
    })
}

/// The lines of the final summary of a run.
pub fn summary_lines(results: &Vec<StepResult>, log_path: Option<&str>) -> (r: Vec<String>)
    ensures
        views(r@) == summary_spec(result_views(results@), crate::model::sview(log_path)),
{
    let ghost rv = result_views(results@);
    let mut failed: Vec<String> = Vec::new();
    let mut i: usize = 0;
    assert(rv.take(0) =~= Seq::<(Seq<char>, bool)>::empty());
    while i < results.len()
        invariant
            i <= results.len(),
            rv == result_views(results@),
            views(failed@) == failed_labels(rv.take(i as int)),
            failed@.len() <= i,
        decreases results.len() - i,
    {
        proof {
            assert(rv.take(i + 1).drop_last() =~= rv.take(i as int));
            assert(rv.take(i + 1).last() == rv[i as int]);
        }
        if !results[i].ok {
            let ghost before = views(failed@);
            failed.push(results[i].label.clone());
            assert(views(failed@) =~= before.push(rv[i as int].0));
        }
        i = i + 1;
    }
    assert(rv.take(results.len() as int) =~= rv);
    let n = results.len();
    let nf = failed.len();
    let ok = n - nf;
    let mut out: Vec<String> = Vec::new();
    out.push(String::new());
    let a = dec_string(ok as u64);
    let b = dec_string(n as u64);
    let head = cat3("==> Resumen: ", a.as_str(), "/");
    out.push(cat3(head.as_str(), b.as_str(), " pasos correctos."));
    let ghost first = seq![Seq::<char>::empty(), "==> Resumen: "@ + dec(ok as nat) + "/"@ + dec(n as nat) + " pasos correctos."@];
    assert(views(out@) =~= first);
    let ghost fl = views(failed@);
    if nf == 0 {
        out.push(owned("    Todo se instalo correctamente."));
        assert(views(out@) =~= first + seq!["    Todo se instalo correctamente."@]);
    } else {
        let c = dec_string(nf as u64);
        out.push(cat3("    ", c.as_str(), " paso(s) fallaron:"));
        let ghost mid = views(out@);
        assert(mid =~= first + seq!["    "@ + dec(nf as nat) + " paso(s) fallaron:"@]);
        let mut j: usize = 0;
        while j < nf
            invariant
                j <= nf,
                nf == failed@.len(),
                fl == views(failed@),
                views(out@) == mid + fl.take(j as int).map_values(|l: Seq<char>| "      - "@ + l),
                mid == first + seq!["    "@ + dec(nf as nat) + " paso(s) fallaron:"@],
            decreases nf - j,
        {
            let ghost before = views(out@);
            out.push(cat("      - ", failed[j].as_str()));
            assert(views(out@) =~= before.push("      - "@ + fl[j as int]));
            assert(fl.take(j + 1).map_values(|l: Seq<char>| "      - "@ + l) =~= fl.take(
                j as int,
            ).map_values(|l: Seq<char>| "      - "@ + l).push("      - "@ + fl[j as int]));
            j = j + 1;
        }
        assert(fl.take(nf as int) =~= fl);
        let ghost before2 = views(out@);
        assert(before2 == mid + fl.map_values(|l: Seq<char>| "      - "@ + l));
        out.push(owned("    Cada fallo se registro en el log con su 'stderr' y una sugerencia."));
        assert(views(out@) =~= before2.push(
            "    Cada fallo se registro en el log con su 'stderr' y una sugerencia."@,
        ));
        assert(views(out@) =~= first + (seq!["    "@ + dec(nf as nat) + " paso(s) fallaron:"@]
            + fl.map_values(|l: Seq<char>| "      - "@ + l) + seq![
            "    Cada fallo se registro en el log con su 'stderr' y una sugerencia."@,
        ]));
    }
    let ghost upto = views(out@);
    assert(fl == failed_labels(rv));
    assert(upto == first + (if fl.len() == 0 {
        seq!["    Todo se instalo correctamente."@]
    } else {
        seq!["    "@ + dec(fl.len()) + " paso(s) fallaron:"@] + fl.map_values(
            |l: Seq<char>| "      - "@ + l,
        ) + seq!["    Cada fallo se registro en el log con su 'stderr' y una sugerencia."@]
    }));
    match log_path {
        Some(p) => out.push(cat("    Log completo: ", p)),
        None => out.push(
            owned(
                "    (No se pudo crear el archivo de log; revisa los permisos de ~/.local/state/.)",
            ),
        ),
    }
    let ghost with_path = views(out@);
    if nf > 0 {
        out.push(
            owned("    Puedes volver a ejecutar el programa: los pasos ya completados se saltaran."),
        );
    }
    proof {
        let path_line = match crate::model::sview(log_path) {
            Some(p) => "    Log completo: "@ + p,
            None => "    (No se pudo crear el archivo de log; revisa los permisos de ~/.local/state/.)"@,
        };
        assert(with_path =~= upto + seq![path_line]);
        if nf > 0 {
            assert(views(out@) =~= with_path + seq![
                "    Puedes volver a ejecutar el programa: los pasos ya completados se saltaran."@,
            ]);
        } else {
            assert(views(out@) =~= with_path + Seq::<Seq<char>>::empty());
        }
        assert(views(out@) =~= summary_spec(rv, crate::model::sview(log_path)));
    }
    out
}

// ----------------------------------------------------------------------
// The plan as a list of tasks
// ----------------------------------------------------------------------

/// One task of an installation.
#[derive(Debug)]
pub enum Task {
    /// Write a line to the log.
    Log(String),
    /// Run the pre-flight checks and log them.
    Preflight,
    /// Run a command; with `only_if_ok`, only when the last step succeeded
    /// (a `&&` chain).
    Run { program: String, args: Vec<String>, only_if_ok: bool },
    /// Record a step with the outcome of the last one.
    Push(String),
    /// Record a step with a fixed outcome.
    PushFixed(String, bool),
    /// Remember the outcome of the last step.
    Save,
    /// Record a step that succeeded if both the remembered and the last
    /// outcome did.
    PushBoth(String),
    /// Log a line when the last step failed.
    LogIfFailed(String),
    /// Back up a system file before changing it.
    Backup(String),
    /// Install `content` as the root-owned file `dst` (mode 0644) through a
    /// temporary file named after `prefix`.
    CopyRoot { content: String, dst: String, prefix: String },
    /// Delete a temporary file.
    RemoveFile(String),
    /// Uncomment a locale in `/etc/locale.gen`.
    LocaleGen(String),
    /// Add the hosts line of a hostname to `/etc/hosts` unless present.
    Hosts { host: String, line: String },
    /// Make sure reflector is installed.
    EnsureReflector,
    /// Select the mirrors of a region, when reflector is ready.
    Reflector(String),
    /// Make sure yay is installed, building it from the AUR if needed.
    EnsureYay,
    /// Go on building yay after its dependencies were installed.
    YayDeps,
    /// Go on building yay after its repository was cloned.
    YayClone,
    /// Build and install yay with makepkg.
    Makepkg,
    /// Install the AUR packages, or record them failed when yay is missing.
    AurPackages(Vec<String>),
    /// Configure the boot loader for the kernel parameters and microcode.
    Boot { params: Vec<String>, microcode: bool, intel: bool },
    /// Add one kernel parameter to GRUB unless present.
    GrubParam(String),
    /// Remove orphaned packages.
    Orphans,
    /// Run a post-install shell command.
    Hook(String),
}

/// What a task is, over plain values.
pub enum TaskV {
    Log(Seq<char>),
    Preflight,
    Run(Seq<char>, Seq<Seq<char>>, bool),
    Push(Seq<char>),
    PushFixed(Seq<char>, bool),
    Save,
    PushBoth(Seq<char>),
    LogIfFailed(Seq<char>),
    Backup(Seq<char>),
    CopyRoot(Seq<char>, Seq<char>, Seq<char>),
    RemoveFile(Seq<char>),
    LocaleGen(Seq<char>),
    Hosts(Seq<char>, Seq<char>),
    EnsureReflector,
    Reflector(Seq<char>),
    EnsureYay,
    YayDeps,
    YayClone,
    Makepkg,
    AurPackages(Seq<Seq<char>>),
    Boot(Seq<Seq<char>>, bool, bool),
    GrubParam(Seq<char>),
    Orphans,
    Hook(Seq<char>),
}

pub open spec fn task_view(t: Task) -> TaskV {
    match t {
        Task::Log(s) => TaskV::Log(s@),
        Task::Preflight => TaskV::Preflight,
        Task::Run { program, args, only_if_ok } => TaskV::Run(program@, views(args@), only_if_ok),
        Task::Push(s) => TaskV::Push(s@),
        Task::PushFixed(s, b) => TaskV::PushFixed(s@, b),
        Task::Save => TaskV::Save,
        Task::PushBoth(s) => TaskV::PushBoth(s@),
        Task::LogIfFailed(s) => TaskV::LogIfFailed(s@),
        Task::Backup(s) => TaskV::Backup(s@),
        Task::CopyRoot { content, dst, prefix } => TaskV::CopyRoot(content@, dst@, prefix@),
        Task::RemoveFile(s) => TaskV::RemoveFile(s@),
        Task::LocaleGen(s) => TaskV::LocaleGen(s@),
        Task::Hosts { host, line } => TaskV::Hosts(host@, line@),
        Task::EnsureReflector => TaskV::EnsureReflector,
        Task::Reflector(s) => TaskV::Reflector(s@),
        Task::EnsureYay => TaskV::EnsureYay,
        Task::YayDeps => TaskV::YayDeps,
        Task::YayClone => TaskV::YayClone,
        Task::Makepkg => TaskV::Makepkg,
        Task::AurPackages(v) => TaskV::AurPackages(views(v@)),
        Task::Boot { params, microcode, intel } => TaskV::Boot(views(params@), microcode, intel),
        Task::GrubParam(s) => TaskV::GrubParam(s@),
        Task::Orphans => TaskV::Orphans,
        Task::Hook(s) => TaskV::Hook(s@),
    }
}

pub open spec fn task_views(v: Seq<Task>) -> Seq<TaskV> {
    v.map_values(|t: Task| task_view(t))
}

/// `--noconfirm` when asked for.
pub open spec fn noconfirm_spec(opts: InstallOptions) -> Seq<Seq<char>> {
    if opts.noconfirm {
        seq!["--noconfirm"@]
    } else {
        Seq::empty()
    }
}

/// The tasks that install one package: a note and a successful step when it
/// is already installed; otherwise the manager's command (pacman through
/// sudo) and its step.
pub open spec fn install_one_spec(opts: InstallOptions, manager: Seq<char>, pkg: Seq<char>) -> Seq<
    TaskV,
> {
    if skip_spec(opts, manager, pkg) {
        seq![
            TaskV::Log("  ↪ "@ + pkg + " ya esta instalado, se omite"@),
            TaskV::PushFixed(manager + ": "@ + pkg + " (ya instalado)"@, true),
        ]
    } else {
        let args = seq!["-S"@, "--needed"@] + noconfirm_spec(opts) + seq![pkg];
        seq![
            if manager == "pacman"@ {
                TaskV::Run("sudo"@, seq!["pacman"@] + args, false)
            } else {
                TaskV::Run(manager, args, false)
            },
            TaskV::Push(manager + ": "@ + pkg),
        ]
    }
}

/// The tasks that install a list of packages one by one.
pub open spec fn installs_spec(opts: InstallOptions, manager: Seq<char>, pkgs: Seq<Seq<char>>) -> Seq<
    TaskV,
>
    decreases pkgs.len(),
{
    if pkgs.len() == 0 {
        Seq::empty()
    } else {
        installs_spec(opts, manager, pkgs.drop_last()) + install_one_spec(opts, manager, pkgs.last())
    }
}

fn push_task(out: &mut Vec<Task>, t: Task)
    ensures
        task_views(final(out)@) == task_views(old(out)@).push(task_view(t)),
{
    let ghost before = task_views(out@);
    out.push(t);
    assert(task_views(out@) =~= before.push(task_view(t)));
}

fn strings(items: &[&str]) -> (r: Vec<String>)
    ensures
        views(r@) == items@.map_values(|s: &str| s@),
{
    let mut r: Vec<String> = Vec::new();
    let mut i: usize = 0;
    while i < items.len()
        invariant
            i <= items.len(),
            views(r@) == items@.take(i as int).map_values(|s: &str| s@),
        decreases items.len() - i,
    {
        let ghost before = views(r@);
        r.push(owned(items[i]));
        assert(views(r@) =~= before.push(items@[i as int]@));
        assert(items@.take(i + 1).map_values(|s: &str| s@) =~= items@.take(i as int).map_values(
            |s: &str| s@,
        ).push(items@[i as int]@));
        i = i + 1;
    }
    assert(items@.take(items@.len() as int) =~= items@);
    r
}

fn run_task(program: &str, args: Vec<String>, only_if_ok: bool) -> (t: Task)
    ensures
        task_view(t) == TaskV::Run(program@, views(args@), only_if_ok),
{
    Task::Run { program: owned(program), args, only_if_ok }
}

fn push_noconfirm(args: &mut Vec<String>, opts: &InstallOptions)
    ensures
        views(final(args)@) == views(old(args)@) + noconfirm_spec(*opts),
{
    let ghost before = views(args@);
    if opts.noconfirm {
        args.push(owned("--noconfirm"));
        assert(views(args@) =~= before + seq!["--noconfirm"@]);
    } else {
        assert(views(args@) =~= before + Seq::<Seq<char>>::empty());
    }
}

/// Appends the tasks that install one package.
fn install_one(out: &mut Vec<Task>, opts: &InstallOptions, manager: &str, pkg: &str)
    ensures
        task_views(final(out)@) == task_views(old(out)@) + install_one_spec(*opts, manager@, pkg@),
{
    let ghost before = task_views(out@);
    if opts.should_skip(manager, pkg) {
        push_task(out, Task::Log(cat3("  ↪ ", pkg, " ya esta instalado, se omite")));
        let head = cat3(manager, ": ", pkg);
        push_task(out, Task::PushFixed(cat(head.as_str(), " (ya instalado)"), true));
    } else {
        let mut args: Vec<String> = Vec::new();
        args.push(owned("-S"));
        args.push(owned("--needed"));
        assert(views(args@) =~= seq!["-S"@, "--needed"@]);
        push_noconfirm(&mut args, opts);
        let ghost mid = views(args@);
        args.push(owned(pkg));
        assert(views(args@) =~= mid + seq![pkg@]);
        if str_eq(manager, "pacman") {
            let mut full: Vec<String> = Vec::new();
            full.push(owned("pacman"));
            let ghost a = views(args@);
            full.append(&mut args);
            assert(views(full@) =~= seq!["pacman"@] + a);
            push_task(out, run_task("sudo", full, false));
        } else {
            push_task(out, run_task(manager, args, false));
        }
        push_task(out, Task::Push(cat3(manager, ": ", pkg)));
    }
    assert(task_views(out@) =~= before + install_one_spec(*opts, manager@, pkg@));
}

/// Appends the tasks that install every package of a list.
fn install_all(out: &mut Vec<Task>, opts: &InstallOptions, manager: &str, pkgs: &Vec<String>)
    ensures
        task_views(final(out)@) == task_views(old(out)@) + installs_spec(
            *opts,
            manager@,
            views(pkgs@),
        ),
{
    let ghost start = task_views(out@);
    let ghost pv = views(pkgs@);
    let mut i: usize = 0;
    assert(pv.take(0) =~= Seq::<Seq<char>>::empty());
    assert(start + installs_spec(*opts, manager@, Seq::<Seq<char>>::empty()) =~= start);
    while i < pkgs.len()
        invariant
            i <= pkgs.len(),
            pv == views(pkgs@),
            task_views(out@) == start + installs_spec(*opts, manager@, pv.take(i as int)),
        decreases pkgs.len() - i,
    {
        proof {
            assert(pv.take(i + 1).drop_last() =~= pv.take(i as int));
            assert(pv.take(i + 1).last() == pv[i as int]);
        }
        install_one(out, opts, manager, pkgs[i].as_str());
        assert(task_views(out@) =~= start + installs_spec(*opts, manager@, pv.take(i + 1)));
        i = i + 1;
    }
    assert(pv.take(pkgs.len() as int) =~= pv);
}

/// The `sed` expression that uncomments the `[multilib]` block.
pub open spec fn multilib_expr() -> Seq<char> {
    "/\\[multilib\\]/,/Include/ s/^#//"@
}

/// The tasks of `write_root_file`: back the file up, then install the new
/// contents.
pub open spec fn write_root_spec(path: Seq<char>, content: Seq<char>) -> Seq<TaskV> {
    seq![
        TaskV::Backup(path),
        TaskV::LogIfFailed("  ! no se pudo hacer backup de "@ + path + "; sigo de todas formas"@),
        TaskV::CopyRoot(content, path, "write"@),
    ]
}

/// When the plan sets a time zone `tz`, the installation links
/// `/usr/share/zoneinfo/<tz>` to `/etc/localtime` with `sudo ln -sf`, and a
/// later step records "zona horaria <tz>".
pub proof fn lemma_timezone_links_localtime(plan: InstallPlan, opts: InstallOptions, tz: Seq<char>)
    requires
        crate::text::oview(plan.timezone) == Some(tz),
    ensures
        exists|i: int, j: int|
            0 <= i < j < compile_spec(plan, opts).len() && #[trigger] compile_spec(plan, opts)[i]
                == TaskV::Run(
                "sudo"@,
                seq![
                    "ln"@,
                    "-sf"@,
                    "/usr/share/zoneinfo/"@ + tz,
                    "/etc/localtime"@,
                ],
                false,
            ) && #[trigger] compile_spec(plan, opts)[j] == TaskV::Push("zona horaria "@ + tz),
{
    let x = seq![TaskV::Preflight] + multilib_phase(plan) + mirror_phase(plan) + sync_phase(opts)
        + aur_phase(plan) + official_phase(plan, opts);
    let b = basics_phase(plan);
    let t = timezone_tasks(tz);
    let r = when_set(crate::text::oview(plan.locale), |t: Seq<char>| locale_tasks(t)) + when_set(
        crate::text::oview(plan.keymap),
        |t: Seq<char>| keymap_tasks(t),
    ) + when_set(crate::text::oview(plan.hostname), |t: Seq<char>| hostname_tasks(t));
    assert(b =~= seq![TaskV::Log("==> Configurando basicos del sistema"@)] + t + r);
    assert(b[1] == t[0]);
    assert(b[3] == t[2]);
    let y = x + b;
    let n = x.len() as int;
    assert(y[n + 1] == b[1]);
    assert(y[n + 3] == b[3]);
    let z = boot_phase(plan) + services_phase(plan) + user_phase(plan) + orphans_phase(plan)
        + hooks_phase(plan);
    assert(compile_spec(plan, opts) =~= y + z);
    let c = compile_spec(plan, opts);
    assert(c[n + 1] == y[n + 1]);
    assert(c[n + 3] == y[n + 3]);
}

proof fn lemma_in_concat(a: Seq<TaskV>, b: Seq<TaskV>, x: TaskV)
    ensures
        a.contains(x) ==> (a + b).contains(x),
        b.contains(x) ==> (a + b).contains(x),
{
    if a.contains(x) {
        let k = choose|k: int| 0 <= k < a.len() && a[k] == x;
        assert((a + b)[k] == x);
    }
    if b.contains(x) {
        let k = choose|k: int| 0 <= k < b.len() && b[k] == x;
        assert((a + b)[a.len() + k] == x);
    }
}

proof fn lemma_basics_in_compile(plan: InstallPlan, opts: InstallOptions, x: TaskV)
    requires
        basics_phase(plan).contains(x),
    ensures
        compile_spec(plan, opts).contains(x),
{
    let a = seq![TaskV::Preflight] + multilib_phase(plan) + mirror_phase(plan) + sync_phase(opts)
        + aur_phase(plan) + official_phase(plan, opts);
    lemma_in_concat(a, basics_phase(plan), x);
    let mut acc = a + basics_phase(plan);
    lemma_in_concat(acc, boot_phase(plan), x);
    acc = acc + boot_phase(plan);
    lemma_in_concat(acc, services_phase(plan), x);
    acc = acc + services_phase(plan);
    lemma_in_concat(acc, user_phase(plan), x);
    acc = acc + user_phase(plan);
    lemma_in_concat(acc, orphans_phase(plan), x);
    acc = acc + orphans_phase(plan);
    lemma_in_concat(acc, hooks_phase(plan), x);
    acc = acc + hooks_phase(plan);
    assert(acc == compile_spec(plan, opts));
}

/// When the plan sets a locale `loc`, the installation uncomments it in
/// `/etc/locale.gen`, runs `sudo locale-gen` and writes `LANG=<loc>` to
/// `/etc/locale.conf`.
pub proof fn lemma_locale_applied(plan: InstallPlan, opts: InstallOptions, loc: Seq<char>)
    requires
        crate::text::oview(plan.locale) == Some(loc),
    ensures
        compile_spec(plan, opts).contains(TaskV::LocaleGen(loc)),
        compile_spec(plan, opts).contains(
            TaskV::Run(
                "sudo"@,
                seq![
                    "locale-gen"@,
                ],
                true,
            ),
        ),
        compile_spec(plan, opts).contains(
            TaskV::CopyRoot("LANG="@ + loc, "/etc/locale.conf"@, "write"@),
        ),
{
    let tz = when_set(crate::text::oview(plan.timezone), |t: Seq<char>| timezone_tasks(t));
    let lc = locale_tasks(loc);
    let km = when_set(crate::text::oview(plan.keymap), |t: Seq<char>| keymap_tasks(t));
    let hn = when_set(crate::text::oview(plan.hostname), |t: Seq<char>| hostname_tasks(t));
    let head = seq![TaskV::Log("==> Configurando basicos del sistema"@)] + tz;
    assert(basics_phase(plan) == head + lc + km + hn);
    let xs = seq![
        TaskV::LocaleGen(loc),
        TaskV::Run("sudo"@, seq!["locale-gen"@], true),
        TaskV::CopyRoot("LANG="@ + loc, "/etc/locale.conf"@, "write"@),
    ];
    assert(lc[2] == xs[0]);
    assert(lc[3] == xs[1]);
    assert(lc[7] == xs[2]);
    assert forall|k: int| 0 <= k < 3 implies basics_phase(plan).contains(#[trigger] xs[k]) by {
        assert(lc.contains(xs[k]));
        lemma_in_concat(head, lc, xs[k]);
        lemma_in_concat(head + lc, km, xs[k]);
        lemma_in_concat(head + lc + km, hn, xs[k]);
    }
    lemma_basics_in_compile(plan, opts, xs[0]);
    lemma_basics_in_compile(plan, opts, xs[1]);
    lemma_basics_in_compile(plan, opts, xs[2]);
}

/// When the plan sets a console keymap `km`, the installation writes
/// `KEYMAP=<km>` to `/etc/vconsole.conf`.
pub proof fn lemma_keymap_applied(plan: InstallPlan, opts: InstallOptions, km: Seq<char>)
    requires
        crate::text::oview(plan.keymap) == Some(km),
    ensures
        compile_spec(plan, opts).contains(
            TaskV::CopyRoot("KEYMAP="@ + km, "/etc/vconsole.conf"@, "write"@),
        ),
{
    let tz = when_set(crate::text::oview(plan.timezone), |t: Seq<char>| timezone_tasks(t));
    let lc = when_set(crate::text::oview(plan.locale), |t: Seq<char>| locale_tasks(t));
    let kt = keymap_tasks(km);
    let hn = when_set(crate::text::oview(plan.hostname), |t: Seq<char>| hostname_tasks(t));
    let head = seq![TaskV::Log("==> Configurando basicos del sistema"@)] + tz + lc;
    assert(basics_phase(plan) == head + kt + hn);
    let x = TaskV::CopyRoot("KEYMAP="@ + km, "/etc/vconsole.conf"@, "write"@);
    assert(kt[2] == x);
    lemma_in_concat(head, kt, x);
    lemma_in_concat(head + kt, hn, x);
    lemma_basics_in_compile(plan, opts, x);
}

/// When the plan sets a hostname `host`, the installation writes it to
/// `/etc/hostname` and maps it to 127.0.1.1 in `/etc/hosts`.
pub proof fn lemma_hostname_applied(plan: InstallPlan, opts: InstallOptions, host: Seq<char>)
    requires
        crate::text::oview(plan.hostname) == Some(host),
    ensures
        compile_spec(plan, opts).contains(TaskV::CopyRoot(host, "/etc/hostname"@, "write"@)),
        compile_spec(plan, opts).contains(
            TaskV::Hosts(host, "127.0.1.1 "@ + host + ".localdomain "@ + host + "\n"@),
        ),
{
    let tz = when_set(crate::text::oview(plan.timezone), |t: Seq<char>| timezone_tasks(t));
    let lc = when_set(crate::text::oview(plan.locale), |t: Seq<char>| locale_tasks(t));
    let kt = when_set(crate::text::oview(plan.keymap), |t: Seq<char>| keymap_tasks(t));
    let ht = hostname_tasks(host);
    let head = seq![TaskV::Log("==> Configurando basicos del sistema"@)] + tz + lc + kt;
    assert(basics_phase(plan) == head + ht);
    let x = TaskV::CopyRoot(host, "/etc/hostname"@, "write"@);
    let y = TaskV::Hosts(host, "127.0.1.1 "@ + host + ".localdomain "@ + host + "\n"@);
    assert(ht[2] == x);
    assert(ht[6] == y);
    lemma_in_concat(head, ht, x);
    lemma_in_concat(head, ht, y);
    lemma_basics_in_compile(plan, opts, x);
    lemma_basics_in_compile(plan, opts, y);
}

proof fn lemma_installs_has(opts: InstallOptions, manager: Seq<char>, pkgs: Seq<Seq<char>>, pkg: Seq<char>, x: TaskV)
    requires
        pkgs.contains(pkg),
        install_one_spec(opts, manager, pkg).contains(x),
    ensures
        installs_spec(opts, manager, pkgs).contains(x),
    decreases pkgs.len(),
{
    let p = pkgs.drop_last();
    if pkgs.last() == pkg {
        lemma_in_concat(installs_spec(opts, manager, p), install_one_spec(opts, manager, pkg), x);
    } else {
        let k = choose|k: int| 0 <= k < pkgs.len() && pkgs[k] == pkg;
        assert(p[k] == pkg);
        lemma_installs_has(opts, manager, p, pkg, x);
        lemma_in_concat(installs_spec(opts, manager, p), install_one_spec(opts, manager, pkgs.last()), x);
    }
}

proof fn lemma_official_in_compile(plan: InstallPlan, opts: InstallOptions, x: TaskV)
    requires
        official_phase(plan, opts).contains(x),
    ensures
        compile_spec(plan, opts).contains(x),
{
    let a = seq![TaskV::Preflight] + multilib_phase(plan) + mirror_phase(plan) + sync_phase(opts)
        + aur_phase(plan);
    lemma_in_concat(a, official_phase(plan, opts), x);
    lemma_in_concat(a + official_phase(plan, opts), basics_phase(plan), x);
    let acc = a + official_phase(plan, opts) + basics_phase(plan);
    lemma_in_concat(acc, boot_phase(plan), x);
    lemma_in_concat(acc + boot_phase(plan), services_phase(plan), x);
    let acc2 = acc + boot_phase(plan) + services_phase(plan);
    lemma_in_concat(acc2, user_phase(plan), x);
    lemma_in_concat(acc2 + user_phase(plan), orphans_phase(plan), x);
    lemma_in_concat(acc2 + user_phase(plan) + orphans_phase(plan), hooks_phase(plan), x);
    assert(acc2 + user_phase(plan) + orphans_phase(plan) + hooks_phase(plan) == compile_spec(plan, opts));
}

/// Every official package of the plan is handled one by one: when it is not
/// already installed, `sudo pacman -S --needed [--noconfirm] <pkg>` runs and
/// its step "pacman: <pkg>" is recorded; when it is, the step
/// "pacman: <pkg> (ya instalado)" is recorded as done.
pub proof fn lemma_official_package_installed(plan: InstallPlan, opts: InstallOptions, pkg: Seq<char>)
    requires
        views(plan.official@).contains(pkg),
    ensures
        !list_has(opts.skip_official@, pkg) ==> compile_spec(plan, opts).contains(
            TaskV::Run(
                "sudo"@,
                seq!["pacman"@, "-S"@, "--needed"@] + (if opts.noconfirm {
                    seq!["--noconfirm"@]
                } else {
                    Seq::empty()
                }) + seq![pkg],
                false,
            ),
        ),
        !list_has(opts.skip_official@, pkg) ==> compile_spec(plan, opts).contains(
            TaskV::Push("pacman: "@ + pkg),
        ),
        list_has(opts.skip_official@, pkg) ==> compile_spec(plan, opts).contains(
            TaskV::PushFixed("pacman: "@ + pkg + " (ya instalado)"@, true),
        ),
{
    let one = install_one_spec(opts, "pacman"@, pkg);
    let pkgs = views(plan.official@);
    reveal_strlit("pacman");
    reveal_strlit(": ");
    reveal_strlit("pacman: ");
    assert("pacman"@ + ": "@ =~= "pacman: "@);
    let extra = if opts.noconfirm {
        seq!["--noconfirm"@]
    } else {
        Seq::<Seq<char>>::empty()
    };
    let run = TaskV::Run("sudo"@, seq!["pacman"@, "-S"@, "--needed"@] + extra + seq![pkg], false);
    let xs = if list_has(opts.skip_official@, pkg) {
        seq![TaskV::PushFixed("pacman: "@ + pkg + " (ya instalado)"@, true)]
    } else {
        assert(seq!["pacman"@] + (seq!["-S"@, "--needed"@] + extra + seq![pkg]) =~= seq![
            "pacman"@,
            "-S"@,
            "--needed"@,
        ] + extra + seq![pkg]);
        seq![run, TaskV::Push("pacman: "@ + pkg)]
    };
    assert forall|k: int| 0 <= k < xs.len() implies compile_spec(plan, opts).contains(#[trigger] xs[k]) by {
        assert(one[k + if list_has(opts.skip_official@, pkg) { 1int } else { 0int }] == xs[k]);
        lemma_installs_has(opts, "pacman"@, pkgs, pkg, xs[k]);
        let head = seq![TaskV::Log("==> Instalando paquetes oficiales (uno por uno para robustez)"@)];
        lemma_in_concat(head, installs_spec(opts, "pacman"@, pkgs), xs[k]);
        lemma_official_in_compile(plan, opts, xs[k]);
    }
    if list_has(opts.skip_official@, pkg) {
        assert(xs[0] == TaskV::PushFixed("pacman: "@ + pkg + " (ya instalado)"@, true));
    } else {
        assert(xs[0] == run);
        assert(xs[1] == TaskV::Push("pacman: "@ + pkg));
    }
}

proof fn lemma_not_blank_has(v: Seq<Seq<char>>, x: Seq<char>)
    requires
        v.contains(x),
        trim_seq(x).len() > 0,
    ensures
        not_blank(v).contains(x),
    decreases v.len(),
{
    let p = v.drop_last();
    if v.last() == x {
        assert(not_blank(v) == not_blank(p).push(x));
        assert(not_blank(v)[not_blank(p).len() as int] == x);
    } else {
        let k = choose|k: int| 0 <= k < v.len() && v[k] == x;
        assert(p[k] == x);
        lemma_not_blank_has(p, x);
        let j = choose|j: int| 0 <= j < not_blank(p).len() && not_blank(p)[j] == x;
        if trim_seq(v.last()).len() > 0 {
            assert(not_blank(v)[j] == x);
        }
    }
}

proof fn lemma_enable_has(svcs: Seq<Seq<char>>, svc: Seq<char>, x: TaskV)
    requires
        svcs.contains(svc),
        x == TaskV::Run("sudo"@, seq!["systemctl"@, "enable"@, unit_spec(svc)], false) || x
            == TaskV::Push("enable "@ + svc),
    ensures
        enable_tasks(svcs).contains(x),
    decreases svcs.len(),
{
    let p = svcs.drop_last();
    let t = seq![
        TaskV::Run("sudo"@, seq!["systemctl"@, "enable"@, unit_spec(svcs.last())], false),
        TaskV::Push("enable "@ + svcs.last()),
    ];
    if svcs.last() == svc {
        assert(t.contains(x)) by {
            if x == t[1] {
            } else {
                assert(x == t[0]);
            }
        }
        lemma_in_concat(enable_tasks(p), t, x);
    } else {
        let k = choose|k: int| 0 <= k < svcs.len() && svcs[k] == svc;
        assert(p[k] == svc);
        lemma_enable_has(p, svc, x);
        lemma_in_concat(enable_tasks(p), t, x);
    }
}

/// Every system service of the plan that is not blank is enabled with
/// `sudo systemctl enable <unit>` (the name with `.service` added when it has
/// no suffix), and its step "enable <service>" is recorded.
pub proof fn lemma_service_enabled(plan: InstallPlan, opts: InstallOptions, svc: Seq<char>)
    requires
        views(plan.services@).contains(svc),
        trim_seq(svc).len() > 0,
    ensures
        compile_spec(plan, opts).contains(
            TaskV::Run(
                "sudo"@,
                seq![
                    "systemctl"@,
                    "enable"@,
                    if svc.contains('.') {
                        svc
                    } else {
                        svc + ".service"@
                    },
                ],
                false,
            ),
        ),
        compile_spec(plan, opts).contains(TaskV::Push("enable "@ + svc)),
{
    let svcs = not_blank(views(plan.services@));
    lemma_not_blank_has(views(plan.services@), svc);
    let run = TaskV::Run("sudo"@, seq!["systemctl"@, "enable"@, unit_spec(svc)], false);
    let push = TaskV::Push("enable "@ + svc);
    lemma_enable_has(svcs, svc, run);
    lemma_enable_has(svcs, svc, push);
    let head = seq![TaskV::Log("==> Habilitando servicios de sistema (systemctl enable)"@)];
    lemma_in_concat(head, enable_tasks(svcs), run);
    lemma_in_concat(head, enable_tasks(svcs), push);
    let a = seq![TaskV::Preflight] + multilib_phase(plan) + mirror_phase(plan) + sync_phase(opts)
        + aur_phase(plan) + official_phase(plan, opts) + basics_phase(plan) + boot_phase(plan);
    lemma_in_concat(a, services_phase(plan), run);
    lemma_in_concat(a, services_phase(plan), push);
    let b = a + services_phase(plan);
    lemma_in_concat(b, user_phase(plan), run);
    lemma_in_concat(b, user_phase(plan), push);
    lemma_in_concat(b + user_phase(plan), orphans_phase(plan), run);
    lemma_in_concat(b + user_phase(plan), orphans_phase(plan), push);
    lemma_in_concat(b + user_phase(plan) + orphans_phase(plan), hooks_phase(plan), run);
    lemma_in_concat(b + user_phase(plan) + orphans_phase(plan), hooks_phase(plan), push);
    assert(b + user_phase(plan) + orphans_phase(plan) + hooks_phase(plan) == compile_spec(plan, opts));
}

/// Every installation synchronizes and updates the system with
/// `sudo pacman -Syu [--noconfirm]` and records the step "pacman -Syu".
pub proof fn lemma_sync_runs(plan: InstallPlan, opts: InstallOptions)
    ensures
        compile_spec(plan, opts).contains(
            TaskV::Run(
                "sudo"@,
                if opts.noconfirm {
                    seq!["pacman"@, "-Syu"@, "--noconfirm"@]
                } else {
                    seq!["pacman"@, "-Syu"@]
                },
                false,
            ),
        ),
        compile_spec(plan, opts).contains(TaskV::Push("pacman -Syu"@)),
{
    let sy = sync_phase(opts);
    let run = sy[1];
    let push = sy[2];
    assert(run == TaskV::Run(
        "sudo"@,
        if opts.noconfirm {
            seq!["pacman"@, "-Syu"@, "--noconfirm"@]
        } else {
            seq!["pacman"@, "-Syu"@]
        },
        false,
    )) by {
        if opts.noconfirm {
            assert(seq!["pacman"@, "-Syu"@] + seq!["--noconfirm"@] =~= seq!["pacman"@, "-Syu"@, "--noconfirm"@]);
        } else {
            assert(seq!["pacman"@, "-Syu"@] + Seq::<Seq<char>>::empty() =~= seq!["pacman"@, "-Syu"@]);
        }
    }
    assert(sy.contains(run));
    assert(sy.contains(push));
    let a = seq![TaskV::Preflight] + multilib_phase(plan) + mirror_phase(plan);
    lemma_in_concat(a, sy, run);
    lemma_in_concat(a, sy, push);
    let b = a + sy;
    lemma_in_concat(b, aur_phase(plan), run);
    lemma_in_concat(b, aur_phase(plan), push);
    lemma_in_concat(b + aur_phase(plan), official_phase(plan, opts), run);
    lemma_in_concat(b + aur_phase(plan), official_phase(plan, opts), push);
    let c = b + aur_phase(plan) + official_phase(plan, opts);
    lemma_in_concat(c, basics_phase(plan), run);
    lemma_in_concat(c, basics_phase(plan), push);
    lemma_basics_prefix_in_compile(plan, opts, c + basics_phase(plan), run);
    lemma_basics_prefix_in_compile(plan, opts, c + basics_phase(plan), push);
}

proof fn lemma_basics_prefix_in_compile(plan: InstallPlan, opts: InstallOptions, c: Seq<TaskV>, x: TaskV)
    requires
        c == seq![TaskV::Preflight] + multilib_phase(plan) + mirror_phase(plan) + sync_phase(opts)
            + aur_phase(plan) + official_phase(plan, opts) + basics_phase(plan),
        c.contains(x),
    ensures
        compile_spec(plan, opts).contains(x),
{
    lemma_in_concat(c, boot_phase(plan), x);
    lemma_in_concat(c + boot_phase(plan), services_phase(plan), x);
    let d = c + boot_phase(plan) + services_phase(plan);
    lemma_in_concat(d, user_phase(plan), x);
    lemma_in_concat(d + user_phase(plan), orphans_phase(plan), x);
    lemma_in_concat(d + user_phase(plan) + orphans_phase(plan), hooks_phase(plan), x);
    assert(d + user_phase(plan) + orphans_phase(plan) + hooks_phase(plan) == compile_spec(plan, opts));
}

/// Enable `[multilib]`, before the first sync.
pub open spec fn multilib_phase(plan: InstallPlan) -> Seq<TaskV> {
    if plan.enable_multilib {
        seq![
            TaskV::Log("==> Habilitando el repositorio [multilib]"@),
            TaskV::Backup("/etc/pacman.conf"@),
            TaskV::LogIfFailed(
                "  ! no se pudo hacer backup de /etc/pacman.conf; sigo de todas formas"@,
            ),
            TaskV::Run("sudo"@, seq!["sed"@, "-i"@, multilib_expr(), "/etc/pacman.conf"@], false),
            TaskV::Push("habilitar multilib"@),
        ]
    } else {
        Seq::empty()
    }
}

/// Select the mirrors with reflector, before the first sync.
pub open spec fn mirror_phase(plan: InstallPlan) -> Seq<TaskV> {
    match crate::text::oview(plan.mirror_region) {
        Some(r) => seq![
            TaskV::Log("==> Seleccionando mirrors con reflector (--country "@ + r + ")"@),
            TaskV::EnsureReflector,
            TaskV::Reflector(r),
        ],
        None => Seq::empty(),
    }
}

/// Synchronize and update the system.
pub open spec fn sync_phase(opts: InstallOptions) -> Seq<TaskV> {
    seq![
        TaskV::Log("==> Sincronizando bases de datos y sistema (pacman -Syu)"@),
        TaskV::Run("sudo"@, seq!["pacman"@, "-Syu"@] + noconfirm_spec(opts), false),
        TaskV::Push("pacman -Syu"@),
    ]
}

/// Prepare yay and install the AUR packages, before any official package.
pub open spec fn aur_phase(plan: InstallPlan) -> Seq<TaskV> {
    if plan.aur@.len() > 0 {
        seq![
            TaskV::Log("==> Preparando herramientas para AUR (git, base-devel, yay)"@),
            TaskV::EnsureYay,
            TaskV::AurPackages(views(plan.aur@)),
        ]
    } else {
        seq![TaskV::Log("==> Sin paquetes AUR en el plan; se omite la preparacion de yay."@)]
    }
}

/// Install the official packages one by one.
pub open spec fn official_phase(plan: InstallPlan, opts: InstallOptions) -> Seq<TaskV> {
    if plan.official@.len() > 0 {
        seq![TaskV::Log("==> Instalando paquetes oficiales (uno por uno para robustez)"@)]
            + installs_spec(opts, "pacman"@, views(plan.official@))
    } else {
        Seq::empty()
    }
}

/// The time zone: link `/etc/localtime` and, if that worked, set the
/// hardware clock.
pub open spec fn timezone_tasks(tz: Seq<char>) -> Seq<TaskV> {
    seq![
        TaskV::Run(
            "sudo"@,
            seq!["ln"@, "-sf"@, "/usr/share/zoneinfo/"@ + tz, "/etc/localtime"@],
            false,
        ),
        TaskV::Run("sudo"@, seq!["hwclock"@, "--systohc"@], true),
        TaskV::Push("zona horaria "@ + tz),
    ]
}

/// The locale: uncomment and generate it, then set `LANG`.
pub open spec fn locale_tasks(loc: Seq<char>) -> Seq<TaskV> {
    seq![
        TaskV::Backup("/etc/locale.gen"@),
        TaskV::LogIfFailed(
            "  ! no se pudo hacer backup de /etc/locale.gen; sigo de todas formas"@,
        ),
        TaskV::LocaleGen(loc),
        TaskV::Run("sudo"@, seq!["locale-gen"@], true),
        TaskV::Save,
    ] + write_root_spec("/etc/locale.conf"@, "LANG="@ + loc) + seq![
        TaskV::PushBoth("locale "@ + loc),
    ]
}

/// The console keymap.
pub open spec fn keymap_tasks(km: Seq<char>) -> Seq<TaskV> {
    write_root_spec("/etc/vconsole.conf"@, "KEYMAP="@ + km) + seq![TaskV::Push("teclado "@ + km)]
}

/// The hostname: `/etc/hostname`, then its line in `/etc/hosts`.
pub open spec fn hostname_tasks(host: Seq<char>) -> Seq<TaskV> {
    write_root_spec("/etc/hostname"@, host) + seq![
        TaskV::Save,
        TaskV::Backup("/etc/hosts"@),
        TaskV::LogIfFailed("  ! no se pudo hacer backup de /etc/hosts; sigo de todas formas"@),
        TaskV::Hosts(host, hosts_line_spec(host)),
        TaskV::PushBoth("hostname "@ + host),
    ]
}

/// The tasks of a setting when it is present.
pub open spec fn when_set(o: Option<Seq<char>>, f: spec_fn(Seq<char>) -> Seq<TaskV>) -> Seq<TaskV> {
    match o {
        Some(v) => f(v),
        None => Seq::empty(),
    }
}

/// Apply the system settings the plan sets.
pub open spec fn basics_phase(plan: InstallPlan) -> Seq<TaskV> {
    if plan.timezone is None && plan.locale is None && plan.keymap is None
        && plan.hostname is None {
        Seq::empty()
    } else {
        seq![TaskV::Log("==> Configurando basicos del sistema"@)] + when_set(
            crate::text::oview(plan.timezone),
            |t: Seq<char>| timezone_tasks(t),
        ) + when_set(crate::text::oview(plan.locale), |t: Seq<char>| locale_tasks(t)) + when_set(
            crate::text::oview(plan.keymap),
            |t: Seq<char>| keymap_tasks(t),
        ) + when_set(crate::text::oview(plan.hostname), |t: Seq<char>| hostname_tasks(t))
    }
}

/// Wire the CPU microcode and the NVIDIA parameters into the boot loader.
pub open spec fn boot_phase(plan: InstallPlan) -> Seq<TaskV> {
    if plan_has_microcode(plan.official@) || plan_has_nvidia(plan.official@) {
        seq![
            TaskV::Log("==> Configurando el arranque (microcodigo de CPU / NVIDIA)"@),
            TaskV::Boot(
                if plan_has_nvidia(plan.official@) {
                    seq!["nvidia-drm.modeset=1"@]
                } else {
                    Seq::empty()
                },
                plan_has_microcode(plan.official@),
                list_has(plan.official@, "intel-ucode"@),
            ),
        ]
    } else {
        Seq::empty()
    }
}

/// The entries that are not blank.
pub open spec fn not_blank(v: Seq<Seq<char>>) -> Seq<Seq<char>>
    decreases v.len(),
{
    if v.len() == 0 {
        Seq::empty()
    } else if trim_seq(v.last()).len() > 0 {
        not_blank(v.drop_last()).push(v.last())
    } else {
        not_blank(v.drop_last())
    }
}

/// The tasks that enable system services one by one.
pub open spec fn enable_tasks(svcs: Seq<Seq<char>>) -> Seq<TaskV>
    decreases svcs.len(),
{
    if svcs.len() == 0 {
        Seq::empty()
    } else {
        enable_tasks(svcs.drop_last()) + seq![
            TaskV::Run("sudo"@, seq!["systemctl"@, "enable"@, unit_spec(svcs.last())], false),
            TaskV::Push("enable "@ + svcs.last()),
        ]
    }
}

/// Enable the system services (display manager, NetworkManager, ...).
pub open spec fn services_phase(plan: InstallPlan) -> Seq<TaskV> {
    let svcs = not_blank(views(plan.services@));
    if svcs.len() > 0 {
        seq![TaskV::Log("==> Habilitando servicios de sistema (systemctl enable)"@)]
            + enable_tasks(svcs)
    } else {
        Seq::empty()
    }
}

/// Enable the user's audio services, all in one command.
pub open spec fn user_phase(plan: InstallPlan) -> Seq<TaskV> {
    let us = not_blank(views(plan.user_services@));
    if us.len() > 0 {
        seq![
            TaskV::Log("==> Habilitando audio para el usuario (systemctl --user enable)"@),
            TaskV::Run(
                "systemctl"@,
                seq!["--user"@, "enable"@] + us.map_values(|u: Seq<char>| unit_spec(u)),
                false,
            ),
            TaskV::Push("enable audio (--user)"@),
        ]
    } else {
        Seq::empty()
    }
}

/// Remove orphaned packages, when asked for.
pub open spec fn orphans_phase(plan: InstallPlan) -> Seq<TaskV> {
    if plan.cleanup_orphans {
        seq![TaskV::Log("==> Limpiando paquetes huerfanos (pacman -Rns)"@), TaskV::Orphans]
    } else {
        Seq::empty()
    }
}

/// Run the profile's post-install commands, at the very end.
pub open spec fn hooks_phase(plan: InstallPlan) -> Seq<TaskV> {
    if plan.post_install@.len() > 0 {
        seq![
            TaskV::Log(
                "==> Ejecutando "@ + dec(plan.post_install@.len()) + " post-install hook(s) (sh -c)"@,
            ),
        ] + views(plan.post_install@).map_values(|c: Seq<char>| TaskV::Hook(c))
    } else {
        Seq::empty()
    }
}

/// Every task of an installation, in order: pre-flight; `[multilib]` and
/// the mirrors before the sync; the sync; yay and the AUR packages before
/// the official ones; the system settings; the boot loader; the services;
/// the orphans; the post-install commands. A failed step never stops the
/// following ones.
pub open spec fn compile_spec(plan: InstallPlan, opts: InstallOptions) -> Seq<TaskV> {
    seq![TaskV::Preflight] + multilib_phase(plan) + mirror_phase(plan) + sync_phase(opts)
        + aur_phase(plan) + official_phase(plan, opts) + basics_phase(plan) + boot_phase(plan)
        + services_phase(plan) + user_phase(plan) + orphans_phase(plan) + hooks_phase(plan)
}

fn write_root(out: &mut Vec<Task>, path: &str, content: &str)
    ensures
        task_views(final(out)@) == task_views(old(out)@) + write_root_spec(path@, content@),
{
    let ghost before = task_views(out@);
    push_task(out, Task::Backup(owned(path)));
    push_task(
        out,
        Task::LogIfFailed(cat3("  ! no se pudo hacer backup de ", path, "; sigo de todas formas")),
    );
    push_task(
        out,
        Task::CopyRoot { content: owned(content), dst: owned(path), prefix: owned("write") },
    );
    assert(task_views(out@) =~= before + write_root_spec(path@, content@));
}

fn multilib_tasks(out: &mut Vec<Task>, plan: &InstallPlan)
    ensures
        task_views(final(out)@) == task_views(old(out)@) + multilib_phase(*plan),
{
    let ghost before = task_views(out@);
    if plan.enable_multilib {
        push_task(out, Task::Log(owned("==> Habilitando el repositorio [multilib]")));
        push_task(out, Task::Backup(owned("/etc/pacman.conf")));
        push_task(
            out,
            Task::LogIfFailed(
                owned("  ! no se pudo hacer backup de /etc/pacman.conf; sigo de todas formas"),
            ),
        );
        let args = strings(&["sed", "-i", "/\\[multilib\\]/,/Include/ s/^#//", "/etc/pacman.conf"]);
        assert(views(args@) =~= seq!["sed"@, "-i"@, multilib_expr(), "/etc/pacman.conf"@]);
        push_task(out, run_task("sudo", args, false));
        push_task(out, Task::Push(owned("habilitar multilib")));
        assert(task_views(out@) =~= before + multilib_phase(*plan));
    } else {
        assert(task_views(out@) =~= before + multilib_phase(*plan));
    }
}

fn mirror_tasks(out: &mut Vec<Task>, plan: &InstallPlan)
    ensures
        task_views(final(out)@) == task_views(old(out)@) + mirror_phase(*plan),
{
    let ghost before = task_views(out@);
    match &plan.mirror_region {
        Some(r) => {
            push_task(
                out,
                Task::Log(
                    cat3("==> Seleccionando mirrors con reflector (--country ", r.as_str(), ")"),
                ),
            );
            push_task(out, Task::EnsureReflector);
            push_task(out, Task::Reflector(r.clone()));
            assert(task_views(out@) =~= before + mirror_phase(*plan));
        },
        None => {
            assert(task_views(out@) =~= before + mirror_phase(*plan));
        },
    }
}

fn sync_tasks(out: &mut Vec<Task>, opts: &InstallOptions)
    ensures
        task_views(final(out)@) == task_views(old(out)@) + sync_phase(*opts),
{
    let ghost before = task_views(out@);
    push_task(out, Task::Log(owned("==> Sincronizando bases de datos y sistema (pacman -Syu)")));
    let mut args = strings(&["pacman", "-Syu"]);
    assert(views(args@) =~= seq!["pacman"@, "-Syu"@]);
    push_noconfirm(&mut args, opts);
    push_task(out, run_task("sudo", args, false));
    push_task(out, Task::Push(owned("pacman -Syu")));
    assert(task_views(out@) =~= before + sync_phase(*opts));
}

fn aur_tasks(out: &mut Vec<Task>, plan: &InstallPlan)
    ensures
        task_views(final(out)@) == task_views(old(out)@) + aur_phase(*plan),
{
    let ghost before = task_views(out@);
    if plan.aur.len() > 0 {
        push_task(
            out,
            Task::Log(owned("==> Preparando herramientas para AUR (git, base-devel, yay)")),
        );
        push_task(out, Task::EnsureYay);
        push_task(out, Task::AurPackages(crate::text::clone_strings(&plan.aur)));
    } else {
        push_task(
            out,
            Task::Log(owned("==> Sin paquetes AUR en el plan; se omite la preparacion de yay.")),
        );
    }
    assert(task_views(out@) =~= before + aur_phase(*plan));
}

fn official_tasks(out: &mut Vec<Task>, plan: &InstallPlan, opts: &InstallOptions)
    ensures
        task_views(final(out)@) == task_views(old(out)@) + official_phase(*plan, *opts),
{
    let ghost before = task_views(out@);
    if plan.official.len() > 0 {
        push_task(
            out,
            Task::Log(owned("==> Instalando paquetes oficiales (uno por uno para robustez)")),
        );
        let ghost mid = task_views(out@);
        install_all(out, opts, "pacman", &plan.official);
        assert(task_views(out@) =~= before + official_phase(*plan, *opts));
    } else {
        assert(task_views(out@) =~= before + official_phase(*plan, *opts));
    }
}

fn timezone_exec(out: &mut Vec<Task>, tz: &Option<String>)
    ensures
        task_views(final(out)@) == task_views(old(out)@) + when_set(
            crate::text::oview(*tz),
            |t: Seq<char>| timezone_tasks(t),
        ),
{
    let ghost s0 = task_views(out@);
    match tz {
        Some(tz) => {
            let target = cat("/usr/share/zoneinfo/", tz.as_str());
            let mut a: Vec<String> = Vec::new();
            a.push(owned("ln"));
            a.push(owned("-sf"));
            a.push(target);
            a.push(owned("/etc/localtime"));
            assert(views(a@) =~= seq!["ln"@, "-sf"@, "/usr/share/zoneinfo/"@ + tz@, "/etc/localtime"@]);
            push_task(out, run_task("sudo", a, false));
            let b = strings(&["hwclock", "--systohc"]);
            assert(views(b@) =~= seq!["hwclock"@, "--systohc"@]);
            push_task(out, run_task("sudo", b, true));
            push_task(out, Task::Push(cat("zona horaria ", tz.as_str())));
            assert(task_views(out@) =~= s0 + timezone_tasks(tz@));
        },
        None => {
            assert(task_views(out@) =~= s0 + Seq::<TaskV>::empty());
        },
    }
}

fn locale_exec(out: &mut Vec<Task>, loc: &Option<String>)
    ensures
        task_views(final(out)@) == task_views(old(out)@) + when_set(
            crate::text::oview(*loc),
            |t: Seq<char>| locale_tasks(t),
        ),
{
    let ghost s1 = task_views(out@);
    match loc {
        Some(loc) => {
            push_task(out, Task::Backup(owned("/etc/locale.gen")));
            push_task(
                out,
                Task::LogIfFailed(
                    owned("  ! no se pudo hacer backup de /etc/locale.gen; sigo de todas formas"),
                ),
            );
            push_task(out, Task::LocaleGen(loc.clone()));
            let g = strings(&["locale-gen"]);
            assert(views(g@) =~= seq!["locale-gen"@]);
            push_task(out, run_task("sudo", g, true));
            push_task(out, Task::Save);
            let lang = cat("LANG=", loc.as_str());
            write_root(out, "/etc/locale.conf", lang.as_str());
            push_task(out, Task::PushBoth(cat("locale ", loc.as_str())));
            assert(task_views(out@) =~= s1 + locale_tasks(loc@));
        },
        None => {
            assert(task_views(out@) =~= s1 + Seq::<TaskV>::empty());
        },
    }
}

fn keymap_exec(out: &mut Vec<Task>, km: &Option<String>)
    ensures
        task_views(final(out)@) == task_views(old(out)@) + when_set(
            crate::text::oview(*km),
            |t: Seq<char>| keymap_tasks(t),
        ),
{
    let ghost s2 = task_views(out@);
    match km {
        Some(km) => {
            let body = cat("KEYMAP=", km.as_str());
            write_root(out, "/etc/vconsole.conf", body.as_str());
            push_task(out, Task::Push(cat("teclado ", km.as_str())));
            assert(task_views(out@) =~= s2 + keymap_tasks(km@));
        },
        None => {
            assert(task_views(out@) =~= s2 + Seq::<TaskV>::empty());
        },
    }
}

fn hostname_exec(out: &mut Vec<Task>, host: &Option<String>)
    ensures
        task_views(final(out)@) == task_views(old(out)@) + when_set(
            crate::text::oview(*host),
            |t: Seq<char>| hostname_tasks(t),
        ),
{
    let ghost s3 = task_views(out@);
    match host {
        Some(host) => {
            write_root(out, "/etc/hostname", host.as_str());
            push_task(out, Task::Save);
            push_task(out, Task::Backup(owned("/etc/hosts")));
            push_task(
                out,
                Task::LogIfFailed(
                    owned("  ! no se pudo hacer backup de /etc/hosts; sigo de todas formas"),
                ),
            );
            push_task(out, Task::Hosts { host: host.clone(), line: hosts_line(host.as_str()) });
            push_task(out, Task::PushBoth(cat("hostname ", host.as_str())));
            assert(task_views(out@) =~= s3 + hostname_tasks(host@));
        },
        None => {
            assert(task_views(out@) =~= s3 + Seq::<TaskV>::empty());
        },
    }
}

fn basics_tasks(out: &mut Vec<Task>, plan: &InstallPlan)
    ensures
        task_views(final(out)@) == task_views(old(out)@) + basics_phase(*plan),
{
    let ghost before = task_views(out@);
    if plan.timezone.is_none() && plan.locale.is_none() && plan.keymap.is_none()
        && plan.hostname.is_none() {
        assert(task_views(out@) =~= before + basics_phase(*plan));
        return;
    }
    push_task(out, Task::Log(owned("==> Configurando basicos del sistema")));
    timezone_exec(out, &plan.timezone);
    locale_exec(out, &plan.locale);
    keymap_exec(out, &plan.keymap);
    hostname_exec(out, &plan.hostname);
    assert(task_views(out@) =~= before + basics_phase(*plan));
}

fn boot_tasks(out: &mut Vec<Task>, plan: &InstallPlan)
    ensures
        task_views(final(out)@) == task_views(old(out)@) + boot_phase(*plan),
{
    let ghost before = task_views(out@);
    let micro = plan.has_microcode();
    let nvidia = plan.has_nvidia();
    if micro || nvidia {
        push_task(
            out,
            Task::Log(owned("==> Configurando el arranque (microcodigo de CPU / NVIDIA)")),
        );
        let params = plan.kernel_params();
        let intel = list_contains(plan.official.as_slice(), "intel-ucode");
        push_task(out, Task::Boot { params, microcode: micro, intel });
    }
    assert(task_views(out@) =~= before + boot_phase(*plan));
}

fn not_blank_of(v: &Vec<String>) -> (r: Vec<String>)
    ensures
        views(r@) == not_blank(views(v@)),
{
    let ghost vv = views(v@);
    let mut r: Vec<String> = Vec::new();
    let mut i: usize = 0;
    assert(vv.take(0) =~= Seq::<Seq<char>>::empty());
    while i < v.len()
        invariant
            i <= v.len(),
            vv == views(v@),
            views(r@) == not_blank(vv.take(i as int)),
        decreases v.len() - i,
    {
        proof {
            assert(vv.take(i + 1).drop_last() =~= vv.take(i as int));
            assert(vv.take(i + 1).last() == vv[i as int]);
        }
        let t = crate::text::trim(v[i].as_str());
        if !t.as_str().is_empty() {
            let ghost before = views(r@);
            r.push(v[i].clone());
            assert(views(r@) =~= before.push(vv[i as int]));
        }
        i = i + 1;
    }
    assert(vv.take(v.len() as int) =~= vv);
    r
}

fn services_tasks(out: &mut Vec<Task>, plan: &InstallPlan)
    ensures
        task_views(final(out)@) == task_views(old(out)@) + services_phase(*plan),
{
    let ghost before = task_views(out@);
    let svcs = not_blank_of(&plan.services);
    let ghost sv = views(svcs@);
    if svcs.len() > 0 {
        push_task(out, Task::Log(owned("==> Habilitando servicios de sistema (systemctl enable)")));
        let ghost mid = task_views(out@);
        let mut i: usize = 0;
        assert(sv.take(0) =~= Seq::<Seq<char>>::empty());
        assert(mid + enable_tasks(Seq::<Seq<char>>::empty()) =~= mid);
        while i < svcs.len()
            invariant
                i <= svcs.len(),
                sv == views(svcs@),
                task_views(out@) == mid + enable_tasks(sv.take(i as int)),
            decreases svcs.len() - i,
        {
            proof {
                assert(sv.take(i + 1).drop_last() =~= sv.take(i as int));
                assert(sv.take(i + 1).last() == sv[i as int]);
            }
            let unit = unit_name(svcs[i].as_str());
            let mut a: Vec<String> = Vec::new();
            a.push(owned("systemctl"));
            a.push(owned("enable"));
            a.push(unit);
            assert(views(a@) =~= seq!["systemctl"@, "enable"@, unit_spec(sv[i as int])]);
            push_task(out, run_task("sudo", a, false));
            push_task(out, Task::Push(cat("enable ", svcs[i].as_str())));
            assert(task_views(out@) =~= mid + enable_tasks(sv.take(i + 1)));
            i = i + 1;
        }
        assert(sv.take(svcs.len() as int) =~= sv);
    }
    assert(task_views(out@) =~= before + services_phase(*plan));
}

fn user_tasks(out: &mut Vec<Task>, plan: &InstallPlan)
    ensures
        task_views(final(out)@) == task_views(old(out)@) + user_phase(*plan),
{
    let ghost before = task_views(out@);
    let us = not_blank_of(&plan.user_services);
    let ghost uv = views(us@);
    if us.len() > 0 {
        push_task(
            out,
            Task::Log(owned("==> Habilitando audio para el usuario (systemctl --user enable)")),
        );
        let mut a = strings(&["--user", "enable"]);
        assert(views(a@) =~= seq!["--user"@, "enable"@]);
        let ghost head = views(a@);
        let mut i: usize = 0;
        while i < us.len()
            invariant
                i <= us.len(),
                uv == views(us@),
                views(a@) == head + uv.take(i as int).map_values(|u: Seq<char>| unit_spec(u)),
            decreases us.len() - i,
        {
            let ghost b = views(a@);
            a.push(unit_name(us[i].as_str()));
            assert(views(a@) =~= b.push(unit_spec(uv[i as int])));
            assert(uv.take(i + 1).map_values(|u: Seq<char>| unit_spec(u)) =~= uv.take(
                i as int,
            ).map_values(|u: Seq<char>| unit_spec(u)).push(unit_spec(uv[i as int])));
            i = i + 1;
        }
        assert(uv.take(us.len() as int) =~= uv);
        push_task(out, run_task("systemctl", a, false));
        push_task(out, Task::Push(owned("enable audio (--user)")));
    }
    assert(task_views(out@) =~= before + user_phase(*plan));
}

fn tail_tasks(out: &mut Vec<Task>, plan: &InstallPlan)
    ensures
        task_views(final(out)@) == task_views(old(out)@) + orphans_phase(*plan) + hooks_phase(
            *plan,
        ),
{
    let ghost before = task_views(out@);
    if plan.cleanup_orphans {
        push_task(out, Task::Log(owned("==> Limpiando paquetes huerfanos (pacman -Rns)")));
        push_task(out, Task::Orphans);
    }
    let ghost mid = task_views(out@);
    assert(mid =~= before + orphans_phase(*plan));
    let n = plan.post_install.len();
    if n > 0 {
        let count = dec_string(n as u64);
        push_task(
            out,
            Task::Log(cat3("==> Ejecutando ", count.as_str(), " post-install hook(s) (sh -c)")),
        );
        let ghost head = task_views(out@);
        let ghost pv = views(plan.post_install@);
        let mut i: usize = 0;
        while i < n
            invariant
                i <= n,
                n == plan.post_install@.len(),
                pv == views(plan.post_install@),
                task_views(out@) == head + pv.take(i as int).map_values(|c: Seq<char>| TaskV::Hook(c)),
            decreases n - i,
        {
            let ghost b = task_views(out@);
            push_task(out, Task::Hook(plan.post_install[i].clone()));
            assert(pv.take(i + 1).map_values(|c: Seq<char>| TaskV::Hook(c)) =~= pv.take(
                i as int,
            ).map_values(|c: Seq<char>| TaskV::Hook(c)).push(TaskV::Hook(pv[i as int])));
            i = i + 1;
        }
        assert(pv.take(n as int) =~= pv);
    }
    assert(task_views(out@) =~= mid + hooks_phase(*plan));
}

/// The tasks that carry out `plan`, in order.
pub fn compile(plan: &InstallPlan, opts: &InstallOptions) -> (r: Vec<Task>)
    ensures
        task_views(r@) == compile_spec(*plan, *opts),
{
    let mut out: Vec<Task> = Vec::new();
    push_task(&mut out, Task::Preflight);
    assert(task_views(out@) =~= seq![TaskV::Preflight]);
    multilib_tasks(&mut out, plan);
    mirror_tasks(&mut out, plan);
    sync_tasks(&mut out, opts);
    aur_tasks(&mut out, plan);
    official_tasks(&mut out, plan, opts);
    basics_tasks(&mut out, plan);
    boot_tasks(&mut out, plan);
    services_tasks(&mut out, plan);
    user_tasks(&mut out, plan);
    tail_tasks(&mut out, plan);
    out
}

// ----------------------------------------------------------------------
// Running the tasks
// ----------------------------------------------------------------------

/// Debug form of a string, as `format!("{:?}", s)` writes it: quoted, with
/// special characters escaped.
pub uninterp spec fn debug_text(s: Seq<char>) -> Seq<char>;

/// Calls `<str as Debug>::fmt` through `format!`; its result is a function
/// of the string alone, named `debug_text`.
#[verifier::external_body]
fn debug_quoted(s: &str) -> (r: String)
    ensures
        r@ == debug_text(s@),
{
    format!("{s:?}")
}

/// What happened when a command was started.
#[derive(Debug)]
pub enum RunOutcome {
    /// It exited successfully.
    Success,
    /// It exited with a failure; its error output and exit code.
    Failed { stderr: String, code: Option<i32> },
    /// It could not be started.
    NotSpawned(String),
}

/// What the installer needs done outside before it can go on.
#[derive(Debug)]
pub enum Effect {
    /// Nothing: resume with `Event::Go`.
    Nothing,
    /// Run the pre-flight checks for the plan; answer `Preflighted`.
    Preflight,
    /// Run a command; answer `Ran`.
    Command { program: String, args: Vec<String> },
    /// Run a command in a directory; answer `Ran`.
    CommandIn { dir: String, program: String, args: Vec<String> },
    /// Run `sh -c` with the command; answer `Ran`.
    Shell(String),
    /// Whether `program --version` succeeds; answer `Probed`.
    Probe(String),
    /// Whether a path exists; answer `Existed`.
    Exists(String),
    /// Read a file; answer `ReadDone`.
    Read(String),
    /// Write the content to a new temporary file; answer `TempWritten`.
    WriteTemp { prefix: String, content: String },
    /// Delete a file; answer `Go`.
    RemoveFile(String),
    /// Delete a directory tree; answer `Go`.
    RemoveDir(String),
    /// Find the boot loader; answer `Bootloader`.
    FindBootloader,
    /// List orphaned packages with `pacman -Qtdq`; answer `Orphans`.
    ListOrphans,
    /// Every task is done.
    Done,
}

/// The answer to the last effect.
#[derive(Debug)]
pub enum Event {
    Go,
    Preflighted(PreflightReport),
    Ran(RunOutcome),
    Probed(bool),
    Existed(bool),
    /// The contents, or why the file could not be read.
    ReadDone(Result<String, String>),
    /// The temporary file's path and whether writing it worked.
    TempWritten { path: String, result: Result<(), String> },
    Bootloader(Bootloader),
    /// The output of `pacman -Qtdq` when it succeeded, `None` when it
    /// failed, or why it could not be started.
    Orphans(Result<Option<String>, String>),
}

/// What to log and what to do next.
#[derive(Debug)]
pub struct Step {
    pub logs: Vec<String>,
    pub effect: Effect,
}

/// The effect the installer waits an answer for.
#[derive(Debug)]
pub enum Waiting {
    Nothing,
    Preflight,
    Run { program: String, pretty: String },
    Shell { cmd: String, shown: String },
    BackupCopy(String),
    BackupSource(String),
    Temp(String),
    Ack,
    LocaleGen(String),
    HostsCheck { host: String, line: String },
    HostsAppend(String),
    Reflector,
    Yay,
    YayDir,
    Makepkg(String),
    Boot { params: Vec<String>, microcode: bool, intel: bool },
    Grub(String),
    Orphans,
}

/// A running installation.
#[derive(Debug)]
pub struct Installer {
    pub opts: InstallOptions,
    /// Tasks still to do, in order.
    pub tasks: Vec<Task>,
    /// The effect whose answer comes next.
    pub waiting: Waiting,
    /// Outcome of the last step.
    pub ok: bool,
    /// Outcome remembered by `Task::Save`.
    pub saved: bool,
    /// The recorded steps.
    pub results: Vec<StepResult>,
}

/// Waiting states reached only by changing the system or on the way to it.
pub open spec fn waits_on_change(w: Waiting) -> bool {
    w is Run || w is Shell || w is Temp || w is Makepkg || w is LocaleGen || w is HostsCheck
        || w is HostsAppend
}

/// An effect that changes the system: it runs a command, or writes or removes
/// a file or a directory.
pub open spec fn changes_system(e: Effect) -> bool {
    e is Command || e is CommandIn || e is Shell || e is WriteTemp || e is RemoveFile
        || e is RemoveDir
}

impl Installer {
    /// A dry run never leaves a file to remove or a command's answer to
    /// wait for.
    pub open spec fn inv(self) -> bool {
        self.opts.dry_run ==> {
            &&& forall|i: int| 0 <= i < self.tasks@.len() ==> !(self.tasks@[i] is RemoveFile)
            &&& !waits_on_change(self.waiting)
        }
    }

    /// The installation of `plan`, before its first step.
    pub fn new(plan: &InstallPlan, opts: InstallOptions) -> (m: Installer)
        ensures
            m.inv(),
            task_views(m.tasks@) == compile_spec(*plan, opts),
            m.opts == opts,
            m.waiting is Nothing,
            m.ok,
            m.results@.len() == 0,
            all_done(m),
    {
        let tasks = compile(plan, &opts);
        proof {
            lemma_compile_no_remove(*plan, opts);
            lemma_compile_no_fixed_failure(*plan, opts);
            assert forall|i: int| 0 <= i < tasks@.len() implies !(tasks@[i] is RemoveFile) by {
                assert(task_views(tasks@)[i] == task_view(tasks@[i]));
                assert(!(compile_spec(*plan, opts)[i] is RemoveFile));
            }
        }
        Installer {
            opts,
            tasks,
            waiting: Waiting::Nothing,
            ok: true,
            saved: true,
            results: Vec::new(),
        }
    }
}

/// No task of the list is the removal of a temporary file.
pub open spec fn no_remove(s: Seq<TaskV>) -> bool {
    forall|i: int| 0 <= i < s.len() ==> !(#[trigger] s[i] is RemoveFile)
}

proof fn lemma_no_remove_add(a: Seq<TaskV>, b: Seq<TaskV>)
    requires
        no_remove(a),
        no_remove(b),
    ensures
        no_remove(a + b),
{
    assert forall|i: int| 0 <= i < (a + b).len() implies !(#[trigger] (a + b)[i] is RemoveFile) by {
        if i < a.len() {
            assert((a + b)[i] == a[i]);
        } else {
            assert((a + b)[i] == b[i - a.len()]);
        }
    }
}

proof fn lemma_installs_no_remove(opts: InstallOptions, manager: Seq<char>, pkgs: Seq<Seq<char>>)
    ensures
        no_remove(installs_spec(opts, manager, pkgs)),
    decreases pkgs.len(),
{
    if pkgs.len() > 0 {
        lemma_installs_no_remove(opts, manager, pkgs.drop_last());
        lemma_no_remove_add(
            installs_spec(opts, manager, pkgs.drop_last()),
            install_one_spec(opts, manager, pkgs.last()),
        );
    }
}

proof fn lemma_enable_no_remove(svcs: Seq<Seq<char>>)
    ensures
        no_remove(enable_tasks(svcs)),
    decreases svcs.len(),
{
    if svcs.len() > 0 {
        lemma_enable_no_remove(svcs.drop_last());
        let t = seq![
            TaskV::Run("sudo"@, seq!["systemctl"@, "enable"@, unit_spec(svcs.last())], false),
            TaskV::Push("enable "@ + svcs.last()),
        ];
        lemma_no_remove_add(enable_tasks(svcs.drop_last()), t);
    }
}

/// Installation plans never start with a temporary file to remove: those
/// appear only after one was written.
pub proof fn lemma_compile_no_remove(plan: InstallPlan, opts: InstallOptions)
    ensures
        no_remove(compile_spec(plan, opts)),
{
    lemma_installs_no_remove(opts, "pacman"@, views(plan.official@));
    lemma_enable_no_remove(not_blank(views(plan.services@)));
    assert(no_remove(official_phase(plan, opts))) by {
        if plan.official@.len() > 0 {
            lemma_no_remove_add(
                seq![TaskV::Log("==> Instalando paquetes oficiales (uno por uno para robustez)"@)],
                installs_spec(opts, "pacman"@, views(plan.official@)),
            );
        }
    }
    assert(no_remove(basics_phase(plan)));
    assert(no_remove(services_phase(plan))) by {
        let svcs = not_blank(views(plan.services@));
        if svcs.len() > 0 {
            lemma_no_remove_add(
                seq![TaskV::Log("==> Habilitando servicios de sistema (systemctl enable)"@)],
                enable_tasks(svcs),
            );
        }
    }
    assert(no_remove(hooks_phase(plan)));
    let mut acc = seq![TaskV::Preflight];
    assert(no_remove(acc));
    lemma_no_remove_add(acc, multilib_phase(plan));
    acc = acc + multilib_phase(plan);
    lemma_no_remove_add(acc, mirror_phase(plan));
    acc = acc + mirror_phase(plan);
    lemma_no_remove_add(acc, sync_phase(opts));
    acc = acc + sync_phase(opts);
    lemma_no_remove_add(acc, aur_phase(plan));
    acc = acc + aur_phase(plan);
    lemma_no_remove_add(acc, official_phase(plan, opts));
    acc = acc + official_phase(plan, opts);
    lemma_no_remove_add(acc, basics_phase(plan));
    acc = acc + basics_phase(plan);
    lemma_no_remove_add(acc, boot_phase(plan));
    acc = acc + boot_phase(plan);
    lemma_no_remove_add(acc, services_phase(plan));
    acc = acc + services_phase(plan);
    lemma_no_remove_add(acc, user_phase(plan));
    acc = acc + user_phase(plan);
    lemma_no_remove_add(acc, orphans_phase(plan));
    acc = acc + orphans_phase(plan);
    lemma_no_remove_add(acc, hooks_phase(plan));
    acc = acc + hooks_phase(plan);
    assert(acc == compile_spec(plan, opts));
}

/// A task that records a step as failed whatever happens.
pub open spec fn fixed_failure(t: TaskV) -> bool {
    t matches TaskV::PushFixed(_, ok) && !ok
}

/// No task of the list records a step as failed whatever happens.
pub open spec fn no_fixed_failure(s: Seq<TaskV>) -> bool {
    forall|i: int| 0 <= i < s.len() ==> !fixed_failure(#[trigger] s[i])
}

/// Nothing has failed so far: the last and the saved outcome are success,
/// every recorded step is recorded as done, and no task left records a step
/// as failed whatever happens.
pub open spec fn all_done(m: Installer) -> bool {
    &&& m.ok
    &&& m.saved
    &&& forall|i: int|
        0 <= i < result_views(m.results@).len() ==> (#[trigger] result_views(m.results@)[i]).1
    &&& no_fixed_failure(task_views(m.tasks@))
}

proof fn lemma_no_fixed_failure_add(a: Seq<TaskV>, b: Seq<TaskV>)
    requires
        no_fixed_failure(a),
        no_fixed_failure(b),
    ensures
        no_fixed_failure(a + b),
{
    assert forall|i: int| 0 <= i < (a + b).len() implies !fixed_failure(#[trigger] (a + b)[i]) by {
        if i < a.len() {
            assert((a + b)[i] == a[i]);
        } else {
            assert((a + b)[i] == b[i - a.len()]);
        }
    }
}

proof fn lemma_installs_no_fixed_failure(opts: InstallOptions, manager: Seq<char>, pkgs: Seq<Seq<char>>)
    ensures
        no_fixed_failure(installs_spec(opts, manager, pkgs)),
    decreases pkgs.len(),
{
    if pkgs.len() > 0 {
        lemma_installs_no_fixed_failure(opts, manager, pkgs.drop_last());
        lemma_no_fixed_failure_add(
            installs_spec(opts, manager, pkgs.drop_last()),
            install_one_spec(opts, manager, pkgs.last()),
        );
    }
}

proof fn lemma_enable_no_fixed_failure(svcs: Seq<Seq<char>>)
    ensures
        no_fixed_failure(enable_tasks(svcs)),
    decreases svcs.len(),
{
    if svcs.len() > 0 {
        lemma_enable_no_fixed_failure(svcs.drop_last());
        let t = seq![
            TaskV::Run("sudo"@, seq!["systemctl"@, "enable"@, unit_spec(svcs.last())], false),
            TaskV::Push("enable "@ + svcs.last()),
        ];
        lemma_no_fixed_failure_add(enable_tasks(svcs.drop_last()), t);
    }
}

/// An installation plan never records a step as failed before trying it:
/// the only fixed outcomes it holds are those of packages already installed.
pub proof fn lemma_compile_no_fixed_failure(plan: InstallPlan, opts: InstallOptions)
    ensures
        no_fixed_failure(compile_spec(plan, opts)),
{
    lemma_installs_no_fixed_failure(opts, "pacman"@, views(plan.official@));
    lemma_enable_no_fixed_failure(not_blank(views(plan.services@)));
    assert(no_fixed_failure(official_phase(plan, opts))) by {
        if plan.official@.len() > 0 {
            lemma_no_fixed_failure_add(
                seq![TaskV::Log("==> Instalando paquetes oficiales (uno por uno para robustez)"@)],
                installs_spec(opts, "pacman"@, views(plan.official@)),
            );
        }
    }
    assert(no_fixed_failure(basics_phase(plan)));
    assert(no_fixed_failure(services_phase(plan))) by {
        let svcs = not_blank(views(plan.services@));
        if svcs.len() > 0 {
            lemma_no_fixed_failure_add(
                seq![TaskV::Log("==> Habilitando servicios de sistema (systemctl enable)"@)],
                enable_tasks(svcs),
            );
        }
    }
    assert(no_fixed_failure(hooks_phase(plan)));
    let mut acc = seq![TaskV::Preflight];
    lemma_no_fixed_failure_add(acc, multilib_phase(plan));
    acc = acc + multilib_phase(plan);
    lemma_no_fixed_failure_add(acc, mirror_phase(plan));
    acc = acc + mirror_phase(plan);
    lemma_no_fixed_failure_add(acc, sync_phase(opts));
    acc = acc + sync_phase(opts);
    lemma_no_fixed_failure_add(acc, aur_phase(plan));
    acc = acc + aur_phase(plan);
    lemma_no_fixed_failure_add(acc, official_phase(plan, opts));
    acc = acc + official_phase(plan, opts);
    lemma_no_fixed_failure_add(acc, basics_phase(plan));
    acc = acc + basics_phase(plan);
    lemma_no_fixed_failure_add(acc, boot_phase(plan));
    acc = acc + boot_phase(plan);
    lemma_no_fixed_failure_add(acc, services_phase(plan));
    acc = acc + services_phase(plan);
    lemma_no_fixed_failure_add(acc, user_phase(plan));
    acc = acc + user_phase(plan);
    lemma_no_fixed_failure_add(acc, orphans_phase(plan));
    acc = acc + orphans_phase(plan);
    lemma_no_fixed_failure_add(acc, hooks_phase(plan));
    acc = acc + hooks_phase(plan);
    assert(acc == compile_spec(plan, opts));
}

/// What starting task `t` does, for the tasks that neither wait on the
/// system nor add tasks. `pre` is the installer before, `rest` the tasks
/// after `t`. A line is logged. A command runs; in a dry run it is only
/// shown and counts as done; when it is conditional and the last step
/// failed it is skipped. A step is recorded with the last outcome, a fixed
/// outcome, or both the saved and the last outcome. The last outcome is
/// saved. A line is logged only after a failure.
pub open spec fn task_started(t: TaskV, pre: Installer, rest: Seq<Task>, post: Installer, s: Step) -> bool {
    let logs = views(s.logs@);
    let kept = post.tasks@ == rest && result_views(post.results@) == result_views(pre.results@);
    let quiet = logs.len() == 0 && s.effect is Nothing && post.waiting is Nothing;
    &&& if t is Save {
        post.saved == pre.ok
    } else {
        post.saved == pre.saved
    }
    &&& match t {
        TaskV::Log(line) => kept && post.ok == pre.ok && logs == seq![line] && s.effect is Nothing
            && post.waiting is Nothing,
        TaskV::Run(program, args, only_if_ok) => kept && if only_if_ok && !pre.ok {
            quiet && !post.ok
        } else if pre.opts.dry_run {
            &&& logs == seq!["[dry-run] "@ + command_text(program, args)]
            &&& s.effect is Nothing
            &&& post.waiting is Nothing
            &&& post.ok
        } else {
            &&& post.ok == pre.ok
            &&& logs == seq!["$ "@ + command_text(program, args)]
            &&& s.effect matches Effect::Command { program: p, args: a } && p@ == program && views(a@)
                == args
            &&& post.waiting matches Waiting::Run { program: p, pretty: q } && p@ == program && q@
                == command_text(program, args)
        },
        TaskV::Push(label) => post.tasks@ == rest && quiet && post.ok == pre.ok && result_views(
            post.results@,
        ) == result_views(pre.results@).push((label, pre.ok)),
        TaskV::PushFixed(label, ok) => post.tasks@ == rest && quiet && post.ok == pre.ok
            && result_views(post.results@) == result_views(pre.results@).push((label, ok)),
        TaskV::PushBoth(label) => post.tasks@ == rest && quiet && post.ok == pre.ok && result_views(
            post.results@,
        ) == result_views(pre.results@).push((label, pre.saved && pre.ok)),
        TaskV::Save => kept && quiet && post.ok == pre.ok && post.saved == pre.ok,
        TaskV::LogIfFailed(line) => kept && s.effect is Nothing && post.waiting is Nothing && post.ok
            == pre.ok && (if pre.ok {
            logs.len() == 0
        } else {
            logs == seq![line]
        }),
        _ => task_handed_out(t, pre, rest, post, s),
    }
}

/// The tasks reflector adds once it is available: back up the mirror list,
/// then rank the mirrors of `region` (only shown in a dry run) and record it.
pub open spec fn reflector_tasks(dry_run: bool, region: Seq<char>) -> Seq<TaskV> {
    seq![
        TaskV::Backup("/etc/pacman.d/mirrorlist"@),
        TaskV::LogIfFailed("    ! no se pudo hacer backup de mirrorlist; sigo de todas formas"@),
    ] + if dry_run {
        seq![
            TaskV::Log(
                "[dry-run] sudo reflector --country "@ + region + " --age 12"@
                    + " --protocol https --sort rate --save /etc/pacman.d/mirrorlist"@,
            ),
        ]
    } else {
        seq![
            TaskV::Run(
                "sudo"@,
                seq![
                    "reflector"@,
                    "--country"@,
                    region,
                    "--age"@,
                    "12"@,
                    "--protocol"@,
                    "https"@,
                    "--sort"@,
                    "rate"@,
                    "--save"@,
                    "/etc/pacman.d/mirrorlist"@,
                ],
                false,
            ),
            TaskV::Push("reflector ("@ + region + ")"@),
        ]
    }
}

/// Clone the sources of yay, then build it.
pub open spec fn yay_clone_tasks() -> Seq<TaskV> {
    seq![
        TaskV::Run(
            "git"@,
            seq!["clone"@, "https://aur.archlinux.org/yay.git"@, "/tmp/yay-postinstall"@],
            false,
        ),
        TaskV::YayClone,
    ]
}

fn yay_clone_items() -> (v: Vec<Task>)
    ensures
        task_views(v@) == yay_clone_tasks(),
        forall|k: int| 0 <= k < v@.len() ==> !(#[trigger] v@[k] is RemoveFile),
{
    let mut args: Vec<String> = Vec::new();
    args.push(owned("clone"));
    args.push(owned("https://aur.archlinux.org/yay.git"));
    args.push(owned("/tmp/yay-postinstall"));
    assert(views(args@) =~= seq!["clone"@, "https://aur.archlinux.org/yay.git"@, "/tmp/yay-postinstall"@]);
    let mut items: Vec<Task> = Vec::new();
    items.push(run_task("git", args, false));
    items.push(Task::YayClone);
    assert(task_views(items@) =~= yay_clone_tasks());
    items
}

/// The arguments of `makepkg` that builds yay.
pub open spec fn makepkg_args(opts: InstallOptions) -> Seq<Seq<char>> {
    seq!["-si"@] + noconfirm_spec(opts)
}

/// How the build of yay is shown.
pub open spec fn makepkg_text(opts: InstallOptions) -> Seq<char> {
    "(cd /tmp/yay-postinstall && makepkg "@ + join_seq(makepkg_args(opts), " "@) + ")"@
}

/// The tasks of the AUR packages: installed one by one once yay is ready,
/// otherwise each recorded as failed.
pub open spec fn aur_package_tasks(ready: bool, opts: InstallOptions, pkgs: Seq<Seq<char>>) -> Seq<TaskV> {
    if ready {
        seq![TaskV::Log("==> Instalando paquetes AUR (uno por uno para robustez)"@)] + installs_spec(
            opts,
            "yay"@,
            pkgs,
        )
    } else {
        seq![TaskV::Log("  ! No se pudo preparar yay; se omiten los paquetes AUR."@)]
            + pkgs.map_values(|p: Seq<char>| TaskV::PushFixed("yay: "@ + p, false))
    }
}

/// What starting the other tasks does: each hands out the effect it waits
/// on (or, in a dry run, only shows what it would do), or puts the tasks it
/// stands for in front of `rest`.
pub open spec fn task_handed_out(t: TaskV, pre: Installer, rest: Seq<Task>, post: Installer, s: Step) -> bool {
    let logs = views(s.logs@);
    let kept = post.tasks@ == rest && result_views(post.results@) == result_views(pre.results@);
    let unchanged = kept && post.ok == pre.ok;
    let added = |front: Seq<TaskV>|
        {
            &&& task_views(post.tasks@) == front + task_views(rest)
            &&& result_views(post.results@) == result_views(pre.results@)
            &&& post.ok == pre.ok
            &&& logs.len() == 0
            &&& s.effect is Nothing
            &&& post.waiting is Nothing
        };
    let shown = |line: Seq<char>|
        kept && post.ok && logs == seq![line] && s.effect is Nothing && post.waiting is Nothing;
    let stopped = |line: Seq<char>|
        unchanged && logs == seq![line] && s.effect is Nothing && post.waiting is Nothing;
    match t {
        TaskV::Preflight => unchanged && logs.len() == 0 && s.effect is Preflight
            && post.waiting is Preflight,
        TaskV::Backup(path) => {
            &&& unchanged && logs.len() == 0
            &&& s.effect matches Effect::Exists(p) && p@ == path + ".arch-postinstall.bak"@
            &&& post.waiting matches Waiting::BackupCopy(q) && q@ == path
        },
        TaskV::CopyRoot(content, dst, prefix) => if pre.opts.dry_run {
            shown(
                "[dry-run] escribir "@ + dec(vstd::utf8::encode_utf8(content).len()) + " bytes en "@
                    + dst + " (modo 0644)"@,
            )
        } else {
            &&& unchanged && logs.len() == 0
            &&& s.effect matches Effect::WriteTemp { prefix: p, content: c } && p@ == prefix && c@
                == content
            &&& post.waiting matches Waiting::Temp(d) && d@ == dst
        },
        TaskV::RemoveFile(path) => {
            &&& unchanged && logs.len() == 0
            &&& s.effect matches Effect::RemoveFile(p) && p@ == path
            &&& post.waiting is Ack
        },
        TaskV::LocaleGen(loc) => if pre.opts.dry_run {
            shown("[dry-run] descomentar "@ + loc + " en /etc/locale.gen"@)
        } else {
            &&& unchanged && logs.len() == 0
            &&& s.effect matches Effect::Read(p) && p@ == "/etc/locale.gen"@
            &&& post.waiting matches Waiting::LocaleGen(l) && l@ == loc
        },
        TaskV::Hosts(host, line) => if pre.opts.dry_run {
            shown("[dry-run] anadir '"@ + line + "' a /etc/hosts si no existe"@)
        } else {
            &&& unchanged && logs.len() == 0
            &&& s.effect matches Effect::Read(p) && p@ == "/etc/hosts"@
            &&& post.waiting matches Waiting::HostsCheck { host: h, line: l } && h@ == host && l@
                == line
        },
        TaskV::EnsureReflector => unchanged && logs.len() == 0 && (s.effect matches Effect::Probe(p)
            && p@ == "reflector"@) && post.waiting is Reflector,
        TaskV::Reflector(region) => if !pre.ok {
            stopped("    ! no se pudo instalar reflector; sigo con mirrors actuales"@)
        } else {
            added(reflector_tasks(pre.opts.dry_run, region))
        },
        TaskV::EnsureYay => unchanged && logs.len() == 0 && (s.effect matches Effect::Probe(p) && p@
            == "yay"@) && post.waiting is Yay,
        TaskV::YayDeps => if !pre.ok {
            stopped("  ! fallo la instalacion de git/base-devel; no se puede continuar con AUR."@)
        } else if pre.opts.dry_run {
            added(yay_clone_tasks())
        } else {
            unchanged && logs.len() == 0 && (s.effect matches Effect::RemoveDir(p) && p@
                == "/tmp/yay-postinstall"@) && post.waiting is YayDir
        },
        TaskV::YayClone => if !pre.ok {
            stopped("  ! fallo el clone del repositorio de yay; no se puede continuar con AUR."@)
        } else {
            added(seq![TaskV::Makepkg])
        },
        TaskV::Makepkg => if pre.opts.dry_run {
            &&& kept && post.ok && s.effect is Nothing && post.waiting is Nothing
            &&& logs == seq![
                "[dry-run] "@ + makepkg_text(pre.opts),
                "  ✓ yay quedaria compilado (dry-run)."@,
            ]
        } else {
            &&& unchanged && logs == seq!["$ "@ + makepkg_text(pre.opts)]
            &&& s.effect matches Effect::CommandIn { dir: d, program: p, args: a } && d@
                == "/tmp/yay-postinstall"@ && p@ == "makepkg"@ && views(a@) == makepkg_args(pre.opts)
            &&& post.waiting matches Waiting::Makepkg(q) && q@ == makepkg_text(pre.opts)
        },
        TaskV::AurPackages(pkgs) => added(aur_package_tasks(pre.ok, pre.opts, pkgs)),
        TaskV::Boot(params, microcode, intel) => {
            &&& unchanged && logs.len() == 0 && s.effect is FindBootloader
            &&& post.waiting matches Waiting::Boot { params: p, microcode: m, intel: i } && views(
                p@,
            ) == params && m == microcode && i == intel
        },
        TaskV::GrubParam(param) => {
            &&& unchanged && logs.len() == 0
            &&& s.effect matches Effect::Read(p) && p@ == "/etc/default/grub"@
            &&& post.waiting matches Waiting::Grub(q) && q@ == param
        },
        TaskV::Orphans => unchanged && logs.len() == 0 && s.effect is ListOrphans
            && post.waiting is Orphans,
        TaskV::Hook(cmd) => if pre.opts.dry_run {
            &&& post.tasks@ == rest && post.ok == pre.ok
            &&& result_views(post.results@) == result_views(pre.results@).push(
                ("post-install: "@ + cmd, true),
            )
            &&& logs == seq!["[dry-run] sh -c "@ + debug_text(cmd)]
            &&& s.effect is Nothing && post.waiting is Nothing
        } else {
            &&& unchanged && logs == seq!["$ sh -c "@ + debug_text(cmd)]
            &&& s.effect matches Effect::Shell(c) && c@ == cmd
            &&& post.waiting matches Waiting::Shell { cmd: c, shown: w } && c@ == cmd && w@
                == debug_text(cmd)
        },
        _ => true,
    }
}

/// What the answer to a command does: its outcome becomes the last outcome;
/// a failure logs its lines and a command that could not start logs why; an
/// answer of another kind counts as a failure.
pub open spec fn run_answered(
    program: Seq<char>,
    pretty: Seq<char>,
    event: Event,
    pre: Installer,
    post: Installer,
    s: Step,
) -> bool {
    &&& post.tasks@ == pre.tasks@
    &&& result_views(post.results@) == result_views(pre.results@)
    &&& post.waiting is Nothing
    &&& s.effect is Nothing
    &&& match event {
        Event::Ran(RunOutcome::Success) => post.ok && s.logs@.len() == 0,
        Event::Ran(RunOutcome::Failed { stderr, code }) => !post.ok && views(s.logs@) == failure_spec(
            program,
            pretty,
            stderr@,
            code,
        ),
        Event::Ran(RunOutcome::NotSpawned(e)) => !post.ok && views(s.logs@) == not_spawned_spec(
            program,
            e@,
        ),
        _ => !post.ok && s.logs@.len() == 0,
    }
}

/// A command that runs only after a successful step.
pub open spec fn conditional(t: TaskV) -> bool {
    t matches TaskV::Run(_, _, c) && c
}

/// Packages are installed one by one, and a failure never stops the others:
/// no command of the installation of a package list waits on the outcome of
/// an earlier step.
pub proof fn lemma_installs_unconditional(opts: InstallOptions, manager: Seq<char>, pkgs: Seq<Seq<char>>)
    ensures
        forall|i: int|
            0 <= i < installs_spec(opts, manager, pkgs).len() ==> !conditional(
                #[trigger] installs_spec(opts, manager, pkgs)[i],
            ),
    decreases pkgs.len(),
{
    if pkgs.len() > 0 {
        lemma_installs_unconditional(opts, manager, pkgs.drop_last());
        let a = installs_spec(opts, manager, pkgs.drop_last());
        let b = install_one_spec(opts, manager, pkgs.last());
        assert forall|i: int| 0 <= i < (a + b).len() implies !conditional(#[trigger] (a + b)[i]) by {
            if i < a.len() {
                assert((a + b)[i] == a[i]);
            } else {
                assert((a + b)[i] == b[i - a.len()]);
            }
        }
    }
}

/// A package already on the system is never handed to its manager: no
/// command of the installation of a package list ends with it.
pub proof fn lemma_skipped_never_run(
    opts: InstallOptions,
    manager: Seq<char>,
    pkgs: Seq<Seq<char>>,
    pkg: Seq<char>,
)
    requires
        skip_spec(opts, manager, pkg),
    ensures
        forall|i: int|
            0 <= i < installs_spec(opts, manager, pkgs).len() ==> !(#[trigger] installs_spec(
                opts,
                manager,
                pkgs,
            )[i] matches TaskV::Run(_, args, _) && args.len() > 0 && args.last() == pkg),
    decreases pkgs.len(),
{
    if pkgs.len() > 0 {
        lemma_skipped_never_run(opts, manager, pkgs.drop_last(), pkg);
        let a = installs_spec(opts, manager, pkgs.drop_last());
        let b = install_one_spec(opts, manager, pkgs.last());
        assert forall|i: int| 0 <= i < (a + b).len() implies !(#[trigger] (a + b)[i] matches TaskV::Run(
            _,
            args,
            _,
        ) && args.len() > 0 && args.last() == pkg) by {
            if i < a.len() {
                assert((a + b)[i] == a[i]);
            } else {
                assert((a + b)[i] == b[i - a.len()]);
            }
        }
    }
}

/// A command followed by the step that records it, as the installation of a
/// package runs them: the command is handed out as it is, and the step is
/// recorded as done exactly when the command succeeded. `s1`, `s2` and `s3`
/// are what three calls of `resume` return: the first starts the command,
/// the second takes its answer `event`, the third records the step.
pub proof fn lemma_step_records_outcome(
    pre: Installer,
    mid: Installer,
    next: Installer,
    post: Installer,
    s1: Step,
    s2: Step,
    s3: Step,
    event: Event,
    program: Seq<char>,
    args: Seq<Seq<char>>,
    label: Seq<char>,
)
    requires
        !pre.opts.dry_run,
        pre.waiting is Nothing,
        pre.tasks@.len() >= 2,
        task_view(pre.tasks@[0]) == TaskV::Run(program, args, false),
        task_view(pre.tasks@[1]) == TaskV::Push(label),
        task_started(task_view(pre.tasks@[0]), pre, pre.tasks@.drop_first(), mid, s1),
        mid.waiting matches Waiting::Run { program: p, pretty: q } ==> run_answered(
            p@,
            q@,
            event,
            mid,
            next,
            s2,
        ),
        next.waiting is Nothing && next.tasks@.len() > 0 ==> task_started(
            task_view(next.tasks@[0]),
            next,
            next.tasks@.drop_first(),
            post,
            s3,
        ),
    ensures
        s1.effect matches Effect::Command { program: p, args: a } && p@ == program && views(a@)
            == args,
        result_views(post.results@) == result_views(pre.results@).push(
            (label, event matches Event::Ran(RunOutcome::Success)),
        ),
        post.tasks@ == pre.tasks@.skip(2),
{
    assert(next.tasks@ == pre.tasks@.drop_first());
    assert(next.tasks@[0] == pre.tasks@[1]);
    assert(next.tasks@.drop_first() =~= pre.tasks@.skip(2));
}

/// Where the copy of `path` is kept.
pub open spec fn backup_of(path: Seq<char>) -> Seq<char> {
    path + ".arch-postinstall.bak"@
}

/// The arguments that install `pkgs` with pacman.
pub open spec fn pacman_install_args(opts: InstallOptions, pkgs: Seq<Seq<char>>) -> Seq<Seq<char>> {
    seq!["pacman"@, "-S"@, "--needed"@] + noconfirm_spec(opts) + pkgs
}

/// What the pre-flight report adds to the log: its lines, and a note when a
/// check failed.
pub open spec fn preflight_logs(r: PreflightReport) -> Seq<Seq<char>> {
    seq!["==> Pre-flight checks"@] + crate::preflight::report_view(r).map_values(
        |c: (Seq<char>, crate::preflight::CheckStatus, Seq<char>)| crate::preflight::log_line(c),
    ) + if crate::preflight::any_status(
        crate::preflight::report_view(r),
        crate::preflight::CheckStatus::Fail,
    ) {
        seq![
            "    Continuo de todas formas; los pasos que dependan de los checks fallidos probablemente tambien fallaran."@,
            Seq::<char>::empty(),
        ]
    } else {
        Seq::empty()
    }
}

/// What the build of yay logs for its outcome.
pub open spec fn makepkg_outcome_logs(pretty: Seq<char>, event: Event) -> Seq<Seq<char>> {
    match event {
        Event::Ran(RunOutcome::Failed { stderr, code }) => failure_spec(
            "makepkg"@,
            pretty,
            stderr@,
            code,
        ),
        Event::Ran(RunOutcome::NotSpawned(e)) => seq![
            "  ! no se pudo ejecutar 'makepkg': "@ + e@,
            "      Sugerencia: makepkg viene con 'pacman' (paquete pacman); revisa que no estes corriendo como root."@,
        ],
        _ => Seq::empty(),
    }
}

/// The orphans `pacman -Qtdq` listed: its non-blank lines when it succeeded.
pub open spec fn orphans_found(event: Event) -> Seq<Seq<char>> {
    match event {
        Event::Orphans(Ok(Some(out))) => nonblank_lines(out@),
        _ => Seq::empty(),
    }
}

/// The tasks that configure GRUB: back up its settings when there are
/// parameters, add each missing one, regenerate the configuration.
pub open spec fn grub_tasks(params: Seq<Seq<char>>) -> Seq<TaskV> {
    (if params.len() > 0 {
        seq![
            TaskV::Backup("/etc/default/grub"@),
            TaskV::LogIfFailed(
                "  ! no se pudo hacer backup de /etc/default/grub; sigo de todas formas"@,
            ),
        ]
    } else {
        Seq::empty()
    }) + params.map_values(|p: Seq<char>| TaskV::GrubParam(p)) + seq![
        TaskV::Run("sudo"@, seq!["grub-mkconfig"@, "-o"@, "/boot/grub/grub.cfg"@], false),
        TaskV::Push("grub-mkconfig"@),
    ]
}

/// The instructions logged for a systemd-boot or unknown loader.
pub open spec fn manual_boot_logs(systemd: bool, params: Seq<Seq<char>>, microcode: bool, intel: bool) -> Seq<
    Seq<char>,
> {
    if systemd {
        seq!["  systemd-boot detectado. Edita /boot/loader/entries/*.conf:"@] + (if microcode {
            seq![
                "    - Anade ANTES de la linea 'initrd' existente:  initrd /"@ + if intel {
                    "intel-ucode.img"@
                } else {
                    "amd-ucode.img"@
                },
            ]
        } else {
            Seq::empty()
        }) + params.map_values(|p: Seq<char>| "    - Anade a la linea 'options':  "@ + p)
    } else {
        seq!["  ! No se detecto GRUB ni systemd-boot. Configura el arranque a mano:"@] + (if microcode {
            seq!["    El microcodigo necesita una linea 'initrd' en tu bootloader."@]
        } else {
            Seq::empty()
        }) + params.map_values(|p: Seq<char>| "    Anade el parametro de kernel: "@ + p)
    }
}

/// What the boot loader found (`b`) asks for: GRUB gets its tasks; for
/// systemd-boot or an unknown loader the log explains what to add by hand
/// and the step is recorded as done.
pub open spec fn boot_answered(
    b: Bootloader,
    params: Seq<Seq<char>>,
    microcode: bool,
    intel: bool,
    pre: Installer,
    post: Installer,
    s: Step,
) -> bool {
    let logs = views(s.logs@);
    &&& post.ok == pre.ok
    &&& s.effect is Nothing
    &&& post.waiting is Nothing
    &&& match b {
        Bootloader::Grub => {
            &&& task_views(post.tasks@) == grub_tasks(params) + task_views(pre.tasks@)
            &&& result_views(post.results@) == result_views(pre.results@)
            &&& logs.len() == 0
        },
        _ => {
            &&& post.tasks@ == pre.tasks@
            &&& logs =~= manual_boot_logs(b is SystemdBoot, params, microcode, intel)
            &&& result_views(post.results@) == result_views(pre.results@).push(
                (
                    if b is SystemdBoot {
                        "systemd-boot (instrucciones en el log)"@
                    } else {
                        "arranque (configurar manualmente)"@
                    },
                    true,
                ),
            )
        },
    }
}

/// What the answer `event` to the effect the installer waited on (`w`)
/// does. `pre` is the installer before (no longer waiting), `post` after.
pub open spec fn answered(w: Waiting, event: Event, pre: Installer, post: Installer, s: Step) -> bool {
    let logs = views(s.logs@);
    let kept = post.tasks@ == pre.tasks@ && result_views(post.results@) == result_views(pre.results@);
    let settled = |ok: bool, lines: Seq<Seq<char>>|
        kept && post.ok == ok && logs =~= lines && s.effect is Nothing && post.waiting is Nothing;
    let added = |front: Seq<TaskV>, lines: Seq<Seq<char>>|
        {
            &&& task_views(post.tasks@) == front + task_views(pre.tasks@)
            &&& result_views(post.results@) == result_views(pre.results@)
            &&& post.ok == pre.ok
            &&& logs =~= lines
            &&& s.effect is Nothing
            &&& post.waiting is Nothing
        };
    let recorded = |label: Seq<char>, ok: bool, lines: Seq<Seq<char>>|
        {
            &&& post.tasks@ == pre.tasks@
            &&& result_views(post.results@) == result_views(pre.results@).push((label, ok))
            &&& logs =~= lines
            &&& s.effect is Nothing
            &&& post.waiting is Nothing
        };
    let none = Seq::<Seq<char>>::empty();
    &&& post.saved == pre.saved
    &&& match w {
        Waiting::Nothing => settled(pre.ok, none),
        Waiting::Ack => settled(pre.ok, none),
        Waiting::Preflight => settled(
            pre.ok,
            match event {
                Event::Preflighted(r) => preflight_logs(r),
                _ => none,
            },
        ),
        Waiting::Run { program, pretty } => run_answered(program@, pretty@, event, pre, post, s),
        Waiting::Shell { cmd, shown } => recorded(
            "post-install: "@ + cmd@,
            post.ok,
            match event {
                Event::Ran(RunOutcome::Failed { stderr, code }) => failure_spec(
                    "sh"@,
                    "sh -c "@ + shown@,
                    stderr@,
                    code,
                ),
                Event::Ran(RunOutcome::NotSpawned(e)) => seq![
                    "  ! no se pudo ejecutar 'sh -c "@ + cmd@ + "': "@ + e@,
                ],
                _ => none,
            },
        ) && post.ok == (event matches Event::Ran(RunOutcome::Success)),
        Waiting::BackupCopy(path) => if event matches Event::Existed(true) {
            settled(true, seq!["  backup ya existe: "@ + backup_of(path@)])
        } else {
            &&& kept && post.ok == pre.ok && logs.len() == 0
            &&& s.effect matches Effect::Exists(p) && p@ == path@
            &&& post.waiting matches Waiting::BackupSource(q) && q@ == path@
        },
        Waiting::BackupSource(path) => if !(event matches Event::Existed(true)) {
            settled(true, none)
        } else if pre.opts.dry_run {
            settled(
                true,
                seq!["[dry-run] sudo cp "@ + path@ + " "@ + backup_of(path@)],
            )
        } else {
            added(
                seq![
                    TaskV::Run(
                        "sudo"@,
                        seq!["cp"@, path@, backup_of(path@)],
                        false,
                    ),
                ],
                seq!["  backup "@ + path@ + " -> "@ + backup_of(path@)],
            )
        },
        Waiting::Temp(dst) => match event {
            Event::TempWritten { path, result: Ok(_) } => added(
                seq![
                    TaskV::Run(
                        "sudo"@,
                        seq!["install"@, "-m"@, "0644"@, path@, dst@],
                        false,
                    ),
                    TaskV::RemoveFile(path@),
                ],
                none,
            ),
            Event::TempWritten { path, result: Err(e) } => settled(
                false,
                seq!["  ! no se pudo escribir "@ + path@ + ": "@ + e@],
            ),
            _ => settled(false, none),
        },
        Waiting::LocaleGen(loc) => match event {
            Event::ReadDone(Ok(body)) => match locale_gen_spec(body@, loc@) {
                None => settled(
                    true,
                    seq!["  /etc/locale.gen: linea para "@ + loc@ + " no estaba comentada"@],
                ),
                Some(edited) => {
                    &&& kept && post.ok == pre.ok && logs.len() == 0
                    &&& s.effect matches Effect::WriteTemp { prefix: p, content: c } && p@
                        == "locale-gen"@ && c@ == edited
                    &&& post.waiting matches Waiting::Temp(d) && d@ == "/etc/locale.gen"@
                },
            },
            Event::ReadDone(Err(e)) => settled(
                false,
                seq!["  ! no se pudo leer /etc/locale.gen: "@ + e@],
            ),
            _ => settled(false, none),
        },
        Waiting::HostsCheck { host, line } => if event matches Event::ReadDone(Ok(body))
            && contains_seq(body@, host@) {
            settled(true, seq!["  /etc/hosts ya contiene entrada para "@ + host@])
        } else {
            &&& kept && post.ok == pre.ok && logs.len() == 0
            &&& s.effect matches Effect::Read(p) && p@ == "/etc/hosts"@
            &&& post.waiting matches Waiting::HostsAppend(l) && l@ == line@
        },
        Waiting::HostsAppend(line) => match event {
            Event::ReadDone(Ok(body)) => {
                &&& kept && post.ok == pre.ok && logs.len() == 0
                &&& s.effect matches Effect::WriteTemp { prefix: p, content: c } && p@ == "hosts"@
                    && c@ == body@ + line@
                &&& post.waiting matches Waiting::Temp(d) && d@ == "/etc/hosts"@
            },
            Event::ReadDone(Err(e)) => settled(false, seq!["  ! no se pudo leer /etc/hosts: "@ + e@]),
            _ => settled(false, none),
        },
        Waiting::Reflector => if event matches Event::Probed(true) {
            settled(true, none)
        } else {
            added(
                seq![
                    TaskV::Run(
                        "sudo"@,
                        pacman_install_args(pre.opts, seq!["reflector"@]),
                        false,
                    ),
                ],
                seq!["  reflector no encontrado: instalando con pacman..."@],
            )
        },
        Waiting::Yay => if event matches Event::Probed(true) {
            settled(true, seq!["  ✓ yay ya esta instalado en el sistema."@])
        } else {
            added(
                seq![
                    TaskV::Run(
                        "sudo"@,
                        pacman_install_args(pre.opts, seq!["git"@, "base-devel"@]),
                        false,
                    ),
                    TaskV::YayDeps,
                ],
                seq!["  yay no encontrado: instalando dependencias y compilando desde AUR..."@],
            )
        },
        Waiting::YayDir => added(yay_clone_tasks(), none),
        Waiting::Makepkg(pretty) => {
            let ok = event matches Event::Ran(RunOutcome::Success);
            settled(
                ok,
                makepkg_outcome_logs(pretty@, event) + seq![
                    if ok {
                        "  ✓ yay compilado e instalado."@
                    } else {
                        "  ! makepkg fallo al compilar yay."@
                    },
                ],
            )
        },
        Waiting::Boot { params, microcode, intel } => boot_answered(
            match event {
                Event::Bootloader(b) => b,
                _ => Bootloader::Unknown,
            },
            views(params@),
            microcode,
            intel,
            pre,
            post,
            s,
        ),
        Waiting::Grub(p) => if event matches Event::ReadDone(Ok(body)) && contains_seq(body@, p@) {
            settled(pre.ok, seq!["  parametro de kernel ya presente: "@ + p@])
        } else {
            added(
                seq![
                    TaskV::Run(
                        "sudo"@,
                        seq!["sed"@, "-i"@, grub_expr_spec(p@), "/etc/default/grub"@],
                        false,
                    ),
                    TaskV::Push("grub: +"@ + p@),
                ],
                none,
            )
        },
        Waiting::Orphans => {
            let found = orphans_found(event);
            let failed = match event {
                Event::Orphans(Err(e)) => seq!["  ! no se pudo listar huerfanos: "@ + e@],
                _ => none,
            };
            if found.len() == 0 {
                recorded(
                    "limpiar huerfanos (sin candidatos)"@,
                    true,
                    failed + seq!["    No hay paquetes huerfanos. Nada que limpiar."@],
                ) && post.ok == pre.ok
            } else {
                added(
                    seq![
                        TaskV::Run(
                            "sudo"@,
                            seq!["pacman"@, "-Rns"@, "--noconfirm"@] + (if pre.opts.dry_run {
                                seq!["--print"@]
                            } else {
                                none
                            }) + found,
                            false,
                        ),
                        TaskV::Push("limpiar huerfanos ("@ + dec(found.len()) + " paquetes)"@),
                    ],
                    seq!["    "@ + dec(found.len()) + " huerfano(s) detectado(s)"@],
                )
            }
        },
    }
}

/// `b` starts with the steps of `a`: steps are only ever added.
pub open spec fn extends(a: Seq<StepResult>, b: Seq<StepResult>) -> bool {
    b.len() >= a.len() && result_views(b).take(a.len() as int) == result_views(a)
}

/// One line to log.
fn one(s: String) -> (v: Vec<String>)
    ensures
        views(v@) == seq![s@],
{
    let mut v: Vec<String> = Vec::new();
    v.push(s);
    assert(views(v@) =~= seq![s@]);
    v
}

fn step(logs: Vec<String>, effect: Effect) -> (s: Step)
    ensures
        s.logs == logs,
        s.effect == effect,
{
    Step { logs, effect }
}

fn no_logs() -> (v: Vec<String>)
    ensures
        v@.len() == 0,
{
    Vec::new()
}

impl Installer {
    /// How one call may change the machine: same options, steps only added,
    /// invariant kept.
    pub open spec fn evolves(self, next: Installer) -> bool {
        &&& next.opts == self.opts
        &&& extends(self.results@, next.results@)
        &&& next.inv()
    }

    fn record(&mut self, label: String, ok: bool)
        requires
            old(self).inv(),
        ensures
            old(self).evolves(*final(self)),
            result_views(final(self).results@) == result_views(old(self).results@).push(
                (label@, ok),
            ),
            final(self).tasks@ == old(self).tasks@,
            final(self).waiting == old(self).waiting,
            final(self).ok == old(self).ok,
            final(self).saved == old(self).saved,
    {
        let ghost before = result_views(self.results@);
        self.results.push(StepResult { label, ok });
        assert(result_views(self.results@) =~= before.push((label@, ok)));
        assert(result_views(self.results@).take(before.len() as int) =~= before);
    }

    fn prepend(&mut self, items: Vec<Task>)
        requires
            old(self).inv(),
            old(self).opts.dry_run ==> forall|i: int|
                0 <= i < items@.len() ==> !(#[trigger] items@[i] is RemoveFile),
        ensures
            old(self).evolves(*final(self)),
            final(self).tasks@ == items@ + old(self).tasks@,
            final(self).results@ == old(self).results@,
            final(self).waiting == old(self).waiting,
            final(self).ok == old(self).ok,
            final(self).saved == old(self).saved,
    {
        let mut front = items;
        let mut rest = Vec::new();
        std::mem::swap(&mut rest, &mut self.tasks);
        front.append(&mut rest);
        self.tasks = front;
        assert(result_views(self.results@).take(self.results@.len() as int) =~= result_views(
            self.results@,
        ));
    }

    /// A command run (or, in a dry run, only shown): in a dry run the
    /// command is logged and counts as done.
    fn run_command(&mut self, program: String, args: Vec<String>) -> (s: Step)
        requires
            old(self).inv(),
            old(self).waiting is Nothing,
        ensures
            old(self).evolves(*final(self)),
            old(self).opts.dry_run ==> !changes_system(s.effect),
            final(self).tasks@ == old(self).tasks@,
            s.effect is Nothing || s.effect is Command,
            task_started(
                TaskV::Run(program@, views(args@), false),
                *old(self),
                old(self).tasks@,
                *final(self),
                s,
            ),
    {
        let pretty = command_line(program.as_str(), &args);
        if self.opts.dry_run {
            self.ok = true;
            assert(result_views(self.results@).take(self.results@.len() as int) =~= result_views(
                self.results@,
            ));
            step(one(cat("[dry-run] ", pretty.as_str())), Effect::Nothing)
        } else {
            let line = cat("$ ", pretty.as_str());
            self.waiting = Waiting::Run { program: program.clone(), pretty };
            assert(result_views(self.results@).take(self.results@.len() as int) =~= result_views(
                self.results@,
            ));
            step(one(line), Effect::Command { program, args })
        }
    }
}

proof fn lemma_push_done(a: Seq<(Seq<char>, bool)>, b: Seq<(Seq<char>, bool)>, x: (Seq<char>, bool))
    requires
        forall|i: int| 0 <= i < a.len() ==> (#[trigger] a[i]).1,
        x.1,
        b == a.push(x),
    ensures
        forall|i: int| 0 <= i < b.len() ==> (#[trigger] b[i]).1,
{
    assert forall|i: int| 0 <= i < b.len() implies (#[trigger] b[i]).1 by {
        if i < a.len() {
            assert(b[i] == a[i]);
        }
    }
}

proof fn lemma_grub_no_fixed_failure(params: Seq<Seq<char>>)
    ensures
        no_fixed_failure(grub_tasks(params)),
{
    let head = if params.len() > 0 {
        seq![
            TaskV::Backup("/etc/default/grub"@),
            TaskV::LogIfFailed(
                "  ! no se pudo hacer backup de /etc/default/grub; sigo de todas formas"@,
            ),
        ]
    } else {
        Seq::empty()
    };
    let mid = params.map_values(|p: Seq<char>| TaskV::GrubParam(p));
    let tail = seq![
        TaskV::Run("sudo"@, seq!["grub-mkconfig"@, "-o"@, "/boot/grub/grub.cfg"@], false),
        TaskV::Push("grub-mkconfig"@),
    ];
    assert(no_fixed_failure(mid)) by {
        assert forall|i: int| 0 <= i < mid.len() implies !fixed_failure(#[trigger] mid[i]) by {
            assert(mid[i] == TaskV::GrubParam(params[i]));
        }
    }
    lemma_no_fixed_failure_add(head, mid);
    lemma_no_fixed_failure_add(head + mid, tail);
    assert(grub_tasks(params) == head + mid + tail);
}

proof fn lemma_drop_first_no_fixed_failure(v: Seq<Task>)
    requires
        v.len() > 0,
        no_fixed_failure(task_views(v)),
    ensures
        no_fixed_failure(task_views(v.drop_first())),
        !fixed_failure(task_view(v[0])),
{
    assert(task_views(v)[0] == task_view(v[0]));
    assert forall|i: int| 0 <= i < task_views(v.drop_first()).len() implies !fixed_failure(
        #[trigger] task_views(v.drop_first())[i],
    ) by {
        assert(task_views(v.drop_first())[i] == task_views(v)[i + 1]);
    }
}

/// In a dry run, starting a task keeps every outcome a success.
proof fn lemma_dry_run_start(pre: Installer, post: Installer, s: Step)
    requires
        pre.opts.dry_run,
        all_done(pre),
        pre.waiting is Nothing,
        pre.tasks@.len() > 0,
        task_started(task_view(pre.tasks@[0]), pre, pre.tasks@.drop_first(), post, s),
    ensures
        all_done(post),
{
    let t = task_view(pre.tasks@[0]);
    let rest = pre.tasks@.drop_first();
    lemma_drop_first_no_fixed_failure(pre.tasks@);
    let before = result_views(pre.results@);
    let after = result_views(post.results@);
    match t {
        TaskV::Push(label) => {
            lemma_push_done(before, after, (label, true));
        },
        TaskV::PushFixed(label, ok) => lemma_push_done(before, after, (label, ok)),
        TaskV::PushBoth(label) => lemma_push_done(before, after, (label, true)),
        TaskV::Hook(cmd) => lemma_push_done(before, after, ("post-install: "@ + cmd, true)),
        TaskV::Reflector(region) => lemma_no_fixed_failure_add(
            reflector_tasks(true, region),
            task_views(rest),
        ),
        TaskV::YayDeps => lemma_no_fixed_failure_add(yay_clone_tasks(), task_views(rest)),
        TaskV::YayClone => lemma_no_fixed_failure_add(seq![TaskV::Makepkg], task_views(rest)),
        TaskV::AurPackages(pkgs) => {
            lemma_installs_no_fixed_failure(pre.opts, "yay"@, pkgs);
            lemma_no_fixed_failure_add(
                seq![TaskV::Log("==> Instalando paquetes AUR (uno por uno para robustez)"@)],
                installs_spec(pre.opts, "yay"@, pkgs),
            );
            lemma_no_fixed_failure_add(aur_package_tasks(true, pre.opts, pkgs), task_views(rest));
        },
        _ => {},
    }
}

/// In a dry run, the answer to an effect keeps every outcome a success.
proof fn lemma_dry_run_answer(pre: Installer, post: Installer, s: Step, event: Event)
    requires
        pre.inv(),
        pre.opts.dry_run,
        all_done(pre),
        !(pre.waiting is Nothing),
        answered(pre.waiting, event, pre, post, s),
    ensures
        all_done(post),
{
    let before = result_views(pre.results@);
    let after = result_views(post.results@);
    let tv = task_views(pre.tasks@);
    match pre.waiting {
        Waiting::Reflector => lemma_no_fixed_failure_add(
            seq![TaskV::Run("sudo"@, pacman_install_args(pre.opts, seq!["reflector"@]), false)],
            tv,
        ),
        Waiting::Yay => lemma_no_fixed_failure_add(
            seq![
                TaskV::Run("sudo"@, pacman_install_args(pre.opts, seq!["git"@, "base-devel"@]), false),
                TaskV::YayDeps,
            ],
            tv,
        ),
        Waiting::YayDir => lemma_no_fixed_failure_add(yay_clone_tasks(), tv),
        Waiting::Grub(p) => lemma_no_fixed_failure_add(
            seq![
                TaskV::Run("sudo"@, seq!["sed"@, "-i"@, grub_expr_spec(p@), "/etc/default/grub"@], false),
                TaskV::Push("grub: +"@ + p@),
            ],
            tv,
        ),
        Waiting::Boot { params, microcode, intel } => {
            let b = match event {
                Event::Bootloader(b) => b,
                _ => Bootloader::Unknown,
            };
            match b {
                Bootloader::Grub => {
                    lemma_grub_no_fixed_failure(views(params@));
                    lemma_no_fixed_failure_add(grub_tasks(views(params@)), tv);
                },
                Bootloader::SystemdBoot => lemma_push_done(
                    before,
                    after,
                    ("systemd-boot (instrucciones en el log)"@, true),
                ),
                Bootloader::Unknown => lemma_push_done(
                    before,
                    after,
                    ("arranque (configurar manualmente)"@, true),
                ),
            }
        },
        Waiting::Orphans => {
            let found = orphans_found(event);
            if found.len() == 0 {
                lemma_push_done(before, after, ("limpiar huerfanos (sin candidatos)"@, true));
            } else {
                lemma_no_fixed_failure_add(
                    seq![
                        TaskV::Run(
                            "sudo"@,
                            seq!["pacman"@, "-Rns"@, "--noconfirm"@, "--print"@] + found,
                            false,
                        ),
                        TaskV::Push("limpiar huerfanos ("@ + dec(found.len()) + " paquetes)"@),
                    ],
                    tv,
                );
            }
        },
        _ => {},
    }
}

proof fn lemma_views_no_remove(v: Seq<Task>)
    requires
        no_remove(task_views(v)),
    ensures
        forall|i: int| 0 <= i < v.len() ==> !(#[trigger] v[i] is RemoveFile),
{
    assert forall|i: int| 0 <= i < v.len() implies !(#[trigger] v[i] is RemoveFile) by {
        assert(task_views(v)[i] == task_view(v[i]));
    }
}

/// The byte length of a string's UTF-8 form.
fn byte_len(s: &str) -> (n: usize)
    ensures
        n == crate::repo_api::utf8_of(s).len(),
{
    s.as_bytes().len()
}

impl Installer {
    /// Starts the next task.
    fn start_task(&mut self, t: Task) -> (s: Step)
        requires
            old(self).inv(),
            old(self).waiting is Nothing,
            old(self).opts.dry_run ==> !(t is RemoveFile),
        ensures
            old(self).evolves(*final(self)),
            old(self).opts.dry_run ==> !changes_system(s.effect),
            !(s.effect is Done),
            task_started(task_view(t), *old(self), old(self).tasks@, *final(self), s),
    {
        assert(result_views(self.results@).take(self.results@.len() as int) =~= result_views(
            self.results@,
        ));
        let ghost tv = task_view(t);
        let ghost pre = *self;
        let st = match t {
            Task::Log(line) => step(one(line), Effect::Nothing),
            Task::Preflight => {
                self.waiting = Waiting::Preflight;
                step(no_logs(), Effect::Preflight)
            },
            Task::Run { program, args, only_if_ok } => {
                if only_if_ok && !self.ok {
                    step(no_logs(), Effect::Nothing)
                } else {
                    self.run_command(program, args)
                }
            },
            Task::Push(label) => {
                let ok = self.ok;
                self.record(label, ok);
                step(no_logs(), Effect::Nothing)
            },
            Task::PushFixed(label, ok) => {
                self.record(label, ok);
                step(no_logs(), Effect::Nothing)
            },
            Task::Save => {
                self.saved = self.ok;
                step(no_logs(), Effect::Nothing)
            },
            Task::PushBoth(label) => {
                let ok = self.saved && self.ok;
                self.record(label, ok);
                step(no_logs(), Effect::Nothing)
            },
            Task::LogIfFailed(line) => {
                if self.ok {
                    step(no_logs(), Effect::Nothing)
                } else {
                    step(one(line), Effect::Nothing)
                }
            },
            Task::Backup(path) => {
                let backup = cat(path.as_str(), ".arch-postinstall.bak");
                self.waiting = Waiting::BackupCopy(path);
                step(no_logs(), Effect::Exists(backup))
            },
            Task::CopyRoot { content, dst, prefix } => {
                if self.opts.dry_run {
                    self.ok = true;
                    let n = dec_string(byte_len(content.as_str()) as u64);
                    let a = cat3("[dry-run] escribir ", n.as_str(), " bytes en ");
                    step(one(cat3(a.as_str(), dst.as_str(), " (modo 0644)")), Effect::Nothing)
                } else {
                    self.waiting = Waiting::Temp(dst);
                    step(no_logs(), Effect::WriteTemp { prefix, content })
                }
            },
            Task::RemoveFile(path) => {
                self.waiting = Waiting::Ack;
                step(no_logs(), Effect::RemoveFile(path))
            },
            Task::LocaleGen(loc) => {
                if self.opts.dry_run {
                    self.ok = true;
                    step(
                        one(cat3("[dry-run] descomentar ", loc.as_str(), " en /etc/locale.gen")),
                        Effect::Nothing,
                    )
                } else {
                    self.waiting = Waiting::LocaleGen(loc);
                    step(no_logs(), Effect::Read(owned("/etc/locale.gen")))
                }
            },
            Task::Hosts { host, line } => {
                if self.opts.dry_run {
                    self.ok = true;
                    step(
                        one(cat3("[dry-run] anadir '", line.as_str(), "' a /etc/hosts si no existe")),
                        Effect::Nothing,
                    )
                } else {
                    self.waiting = Waiting::HostsCheck { host, line };
                    step(no_logs(), Effect::Read(owned("/etc/hosts")))
                }
            },
            Task::EnsureReflector => {
                self.waiting = Waiting::Reflector;
                step(no_logs(), Effect::Probe(owned("reflector")))
            },
            Task::Reflector(region) => {
                if !self.ok {
                    step(
                        one(owned("    ! no se pudo instalar reflector; sigo con mirrors actuales")),
                        Effect::Nothing,
                    )
                } else {
                let mut items: Vec<Task> = Vec::new();
                items.push(Task::Backup(owned("/etc/pacman.d/mirrorlist")));
                items.push(
                    Task::LogIfFailed(
                        owned("    ! no se pudo hacer backup de mirrorlist; sigo de todas formas"),
                    ),
                );
                if self.opts.dry_run {
                    let a = cat3("[dry-run] sudo reflector --country ", region.as_str(), " --age 12");
                    items.push(
                        Task::Log(
                            cat(
                                a.as_str(),
                                " --protocol https --sort rate --save /etc/pacman.d/mirrorlist",
                            ),
                        ),
                    );
                } else {
                    let mut args: Vec<String> = Vec::new();
                    args.push(owned("reflector"));
                    args.push(owned("--country"));
                    args.push(region.clone());
                    args.push(owned("--age"));
                    args.push(owned("12"));
                    args.push(owned("--protocol"));
                    args.push(owned("https"));
                    args.push(owned("--sort"));
                    args.push(owned("rate"));
                    args.push(owned("--save"));
                    args.push(owned("/etc/pacman.d/mirrorlist"));
                    let ghost av = views(args@);
                    assert(av =~= seq![
                        "reflector"@,
                        "--country"@,
                        region@,
                        "--age"@,
                        "12"@,
                        "--protocol"@,
                        "https"@,
                        "--sort"@,
                        "rate"@,
                        "--save"@,
                        "/etc/pacman.d/mirrorlist"@,
                    ]);
                    items.push(run_task("sudo", args, false));
                    items.push(Task::Push(cat3("reflector (", region.as_str(), ")")));
                }
                let ghost front = items@;
                assert(task_views(front) =~= reflector_tasks(self.opts.dry_run, region@));
                self.prepend(items);
                assert(task_views(self.tasks@) =~= task_views(front) + task_views(pre.tasks@));
                step(no_logs(), Effect::Nothing)
                }
            },
            Task::EnsureYay => {
                self.waiting = Waiting::Yay;
                step(no_logs(), Effect::Probe(owned("yay")))
            },
            Task::YayDeps => {
                if !self.ok {
                    step(
                        one(
                            owned(
                                "  ! fallo la instalacion de git/base-devel; no se puede continuar con AUR.",
                            ),
                        ),
                        Effect::Nothing,
                    )
                } else if self.opts.dry_run {
                    let items = yay_clone_items();
                    let ghost front = items@;
                    self.prepend(items);
                    assert(task_views(self.tasks@) =~= task_views(front) + task_views(pre.tasks@));
                    step(no_logs(), Effect::Nothing)
                } else {
                    self.waiting = Waiting::YayDir;
                    step(no_logs(), Effect::RemoveDir(owned("/tmp/yay-postinstall")))
                }
            },
            Task::YayClone => {
                if !self.ok {
                    step(
                        one(
                            owned(
                                "  ! fallo el clone del repositorio de yay; no se puede continuar con AUR.",
                            ),
                        ),
                        Effect::Nothing,
                    )
                } else {
                    let mut items: Vec<Task> = Vec::new();
                    items.push(Task::Makepkg);
                    let ghost front = items@;
                    self.prepend(items);
                    assert(task_views(self.tasks@) =~= seq![TaskV::Makepkg] + task_views(pre.tasks@));
                    step(no_logs(), Effect::Nothing)
                }
            },
            Task::Makepkg => {
                let mut mk: Vec<String> = Vec::new();
                mk.push(owned("-si"));
                if self.opts.noconfirm {
                    mk.push(owned("--noconfirm"));
                }
                assert(views(mk@) =~= makepkg_args(self.opts));
                let joined = join(mk.as_slice(), " ");
                let pretty = cat3("(cd /tmp/yay-postinstall && makepkg ", joined.as_str(), ")");
                if self.opts.dry_run {
                    self.ok = true;
                    let mut logs = one(cat("[dry-run] ", pretty.as_str()));
                    let ghost first = views(logs@);
                    logs.push(owned("  ✓ yay quedaria compilado (dry-run)."));
                    assert(views(logs@) =~= first.push("  ✓ yay quedaria compilado (dry-run)."@));
                    assert(pretty@ == makepkg_text(self.opts));
                    assert(first == seq!["[dry-run] "@ + makepkg_text(self.opts)]);
                    assert(views(logs@) == seq!["[dry-run] "@ + makepkg_text(self.opts), "  ✓ yay quedaria compilado (dry-run)."@]);
                    step(logs, Effect::Nothing)
                } else {
                    let line = cat("$ ", pretty.as_str());
                    self.waiting = Waiting::Makepkg(pretty);
                    step(
                        one(line),
                        Effect::CommandIn {
                            dir: owned("/tmp/yay-postinstall"),
                            program: owned("makepkg"),
                            args: mk,
                        },
                    )
                }
            },
            Task::AurPackages(pkgs) => {
                let mut items: Vec<Task> = Vec::new();
                if self.ok {
                    items.push(
                        Task::Log(owned("==> Instalando paquetes AUR (uno por uno para robustez)")),
                    );
                    let ghost before = task_views(items@);
                    install_all(&mut items, &self.opts, "yay", &pkgs);
                    proof {
                        lemma_installs_no_remove(self.opts, "yay"@, views(pkgs@));
                        lemma_no_remove_add(
                            seq![TaskV::Log("==> Instalando paquetes AUR (uno por uno para robustez)"@)],
                            installs_spec(self.opts, "yay"@, views(pkgs@)),
                        );
                        assert(before =~= seq![TaskV::Log("==> Instalando paquetes AUR (uno por uno para robustez)"@)]);
                        lemma_views_no_remove(items@);
                    }
                } else {
                    items.push(
                        Task::Log(owned("  ! No se pudo preparar yay; se omiten los paquetes AUR.")),
                    );
                    let ghost pv = views(pkgs@);
                    let ghost head = seq![TaskV::Log("  ! No se pudo preparar yay; se omiten los paquetes AUR."@)];
                    assert(task_views(items@) =~= head);
                    let mut i: usize = 0;
                    while i < pkgs.len()
                        invariant
                            i <= pkgs.len(),
                            pv == views(pkgs@),
                            forall|k: int| 0 <= k < items@.len() ==> !(#[trigger] items@[k] is RemoveFile),
                            task_views(items@) == head + pv.take(i as int).map_values(
                                |p: Seq<char>| TaskV::PushFixed("yay: "@ + p, false),
                            ),
                        decreases pkgs.len() - i,
                    {
                        let ghost before = task_views(items@);
                        items.push(Task::PushFixed(cat("yay: ", pkgs[i].as_str()), false));
                        assert(task_views(items@) =~= before.push(TaskV::PushFixed("yay: "@ + pv[i as int], false)));
                        assert(pv.take(i + 1).map_values(|p: Seq<char>| TaskV::PushFixed("yay: "@ + p, false))
                            =~= pv.take(i as int).map_values(|p: Seq<char>| TaskV::PushFixed("yay: "@ + p, false)).push(
                            TaskV::PushFixed("yay: "@ + pv[i as int], false)));
                        i = i + 1;
                    }
                    assert(pv.take(pv.len() as int) =~= pv);
                }
                let ghost front = items@;
                assert(task_views(front) =~= aur_package_tasks(self.ok, self.opts, views(pkgs@)));
                self.prepend(items);
                assert(task_views(self.tasks@) =~= task_views(front) + task_views(pre.tasks@));
                step(no_logs(), Effect::Nothing)
            },
            Task::Boot { params, microcode, intel } => {
                self.waiting = Waiting::Boot { params, microcode, intel };
                step(no_logs(), Effect::FindBootloader)
            },
            Task::GrubParam(p) => {
                self.waiting = Waiting::Grub(p);
                step(no_logs(), Effect::Read(owned("/etc/default/grub")))
            },
            Task::Orphans => {
                self.waiting = Waiting::Orphans;
                step(no_logs(), Effect::ListOrphans)
            },
            Task::Hook(cmd) => {
                let shown = debug_quoted(cmd.as_str());
                if self.opts.dry_run {
                    self.record(cat("post-install: ", cmd.as_str()), true);
                    step(one(cat("[dry-run] sh -c ", shown.as_str())), Effect::Nothing)
                } else {
                    let line = cat("$ sh -c ", shown.as_str());
                    self.waiting = Waiting::Shell { cmd: cmd.clone(), shown };
                    step(one(line), Effect::Shell(cmd))
                }
            },
        };
        proof {
            assert(task_handed_out(tv, pre, pre.tasks@, *self, st));
        }
        st
    }
}

/// The log lines of a command that could not be started.
pub open spec fn not_spawned_spec(program: Seq<char>, e: Seq<char>) -> Seq<Seq<char>> {
    seq![
        "  ! no se pudo ejecutar '"@ + program + "': "@ + e,
        "      Sugerencia: comprueba que '"@ + program + "' este instalado y en el PATH."@,
    ]
}

fn two(a: String, b: String) -> (v: Vec<String>)
    ensures
        views(v@) == seq![a@, b@],
{
    let mut v: Vec<String> = Vec::new();
    v.push(a);
    v.push(b);
    assert(views(v@) =~= seq![a@, b@]);
    v
}

impl Installer {
    /// Takes the answer to the effect the installer waited for.
    fn answer(&mut self, w: Waiting, event: Event) -> (s: Step)
        requires
            old(self).inv(),
            old(self).waiting is Nothing,
            old(self).opts.dry_run ==> !waits_on_change(w),
        ensures
            old(self).evolves(*final(self)),
            old(self).opts.dry_run ==> !changes_system(s.effect),
            !(s.effect is Done),
            w matches Waiting::Run { program, pretty } ==> run_answered(
                program@,
                pretty@,
                event,
                *old(self),
                *final(self),
                s,
            ),
            answered(w, event, *old(self), *final(self), s),
    {
        assert(result_views(self.results@).take(self.results@.len() as int) =~= result_views(
            self.results@,
        ));
        let ghost wg = w;
        let ghost eg = event;
        let ghost pre = *self;
        let st = match w {
            Waiting::Nothing => step(no_logs(), Effect::Nothing),
            Waiting::Preflight => {
                match event {
                    Event::Preflighted(report) => {
                        let mut logs = report.log_lines();
                        if !report.all_ok() {
                            logs.push(
                                owned(
                                    "    Continuo de todas formas; los pasos que dependan de los checks fallidos probablemente tambien fallaran.",
                                ),
                            );
                            logs.push(String::new());
                        }
                        step(logs, Effect::Nothing)
                    },
                    _ => step(no_logs(), Effect::Nothing),
                }
            },
            Waiting::Run { program, pretty } => {
                match event {
                    Event::Ran(RunOutcome::Success) => {
                        self.ok = true;
                        step(no_logs(), Effect::Nothing)
                    },
                    Event::Ran(RunOutcome::Failed { stderr, code }) => {
                        self.ok = false;
                        step(
                            failure_lines(program.as_str(), pretty.as_str(), stderr.as_str(), code),
                            Effect::Nothing,
                        )
                    },
                    Event::Ran(RunOutcome::NotSpawned(e)) => {
                        self.ok = false;
                        let a = cat3("  ! no se pudo ejecutar '", program.as_str(), "': ");
                        let b = cat3(
                            "      Sugerencia: comprueba que '",
                            program.as_str(),
                            "' este instalado y en el PATH.",
                        );
                        step(two(cat(a.as_str(), e.as_str()), b), Effect::Nothing)
                    },
                    _ => {
                        self.ok = false;
                        step(no_logs(), Effect::Nothing)
                    },
                }
            },
            Waiting::Shell { cmd, shown } => {
                let label = cat("post-install: ", cmd.as_str());
                let logs = match event {
                    Event::Ran(RunOutcome::Success) => {
                        self.ok = true;
                        no_logs()
                    },
                    Event::Ran(RunOutcome::Failed { stderr, code }) => {
                        self.ok = false;
                        let pretty = cat("sh -c ", shown.as_str());
                        failure_lines("sh", pretty.as_str(), stderr.as_str(), code)
                    },
                    Event::Ran(RunOutcome::NotSpawned(e)) => {
                        self.ok = false;
                        let a = cat3("  ! no se pudo ejecutar 'sh -c ", cmd.as_str(), "': ");
                        one(cat(a.as_str(), e.as_str()))
                    },
                    _ => {
                        self.ok = false;
                        no_logs()
                    },
                };
                let ok = self.ok;
                self.record(label, ok);
                step(logs, Effect::Nothing)
            },
            Waiting::BackupCopy(path) => {
                let backup = cat(path.as_str(), ".arch-postinstall.bak");
                match event {
                    Event::Existed(true) => {
                        self.ok = true;
                        step(one(cat("  backup ya existe: ", backup.as_str())), Effect::Nothing)
                    },
                    _ => {
                        let p = path.clone();
                        self.waiting = Waiting::BackupSource(path);
                        step(no_logs(), Effect::Exists(p))
                    },
                }
            },
            Waiting::BackupSource(path) => {
                let backup = cat(path.as_str(), ".arch-postinstall.bak");
                match event {
                    Event::Existed(true) => {
                        if self.opts.dry_run {
                            self.ok = true;
                            let a = cat3("[dry-run] sudo cp ", path.as_str(), " ");
                            step(one(cat(a.as_str(), backup.as_str())), Effect::Nothing)
                        } else {
                            let a = cat3("  backup ", path.as_str(), " -> ");
                            let line = cat(a.as_str(), backup.as_str());
                            let ghost pv = path@;
                            let ghost bv = backup@;
                            let mut args: Vec<String> = Vec::new();
                            args.push(owned("cp"));
                            args.push(path);
                            args.push(backup);
                            assert(views(args@) =~= seq!["cp"@, pv, bv]);
                            let mut items: Vec<Task> = Vec::new();
                            items.push(run_task("sudo", args, false));
                            let ghost front = items@;
                            assert(task_views(front) =~= seq![TaskV::Run("sudo"@, seq!["cp"@, pv, bv], false)]);
                            self.prepend(items);
                            assert(task_views(self.tasks@) =~= task_views(front) + task_views(pre.tasks@));
                            step(one(line), Effect::Nothing)
                        }
                    },
                    _ => {
                        self.ok = true;
                        step(no_logs(), Effect::Nothing)
                    },
                }
            },
            Waiting::Temp(dst) => {
                match event {
                    Event::TempWritten { path, result: Ok(()) } => {
                        let ghost pv = path@;
                        let ghost dv = dst@;
                        let mut args: Vec<String> = Vec::new();
                        args.push(owned("install"));
                        args.push(owned("-m"));
                        args.push(owned("0644"));
                        args.push(path.clone());
                        args.push(dst);
                        assert(views(args@) =~= seq!["install"@, "-m"@, "0644"@, pv, dv]);
                        let mut items: Vec<Task> = Vec::new();
                        items.push(run_task("sudo", args, false));
                        items.push(Task::RemoveFile(path));
                        let ghost front = items@;
                        assert(task_views(front) =~= seq![
                            TaskV::Run("sudo"@, seq!["install"@, "-m"@, "0644"@, pv, dv], false),
                            TaskV::RemoveFile(pv),
                        ]);
                        self.prepend(items);
                        assert(task_views(self.tasks@) =~= task_views(front) + task_views(pre.tasks@));
                        step(no_logs(), Effect::Nothing)
                    },
                    Event::TempWritten { path, result: Err(e) } => {
                        self.ok = false;
                        let a = cat3("  ! no se pudo escribir ", path.as_str(), ": ");
                        step(one(cat(a.as_str(), e.as_str())), Effect::Nothing)
                    },
                    _ => {
                        self.ok = false;
                        step(no_logs(), Effect::Nothing)
                    },
                }
            },
            Waiting::Ack => step(no_logs(), Effect::Nothing),
            Waiting::LocaleGen(loc) => {
                match event {
                    Event::ReadDone(Ok(body)) => {
                        match uncomment_locale_line(body.as_str(), loc.as_str()) {
                            None => {
                                self.ok = true;
                                step(
                                    one(
                                        cat3(
                                            "  /etc/locale.gen: linea para ",
                                            loc.as_str(),
                                            " no estaba comentada",
                                        ),
                                    ),
                                    Effect::Nothing,
                                )
                            },
                            Some(new_body) => {
                                self.waiting = Waiting::Temp(owned("/etc/locale.gen"));
                                step(
                                    no_logs(),
                                    Effect::WriteTemp {
                                        prefix: owned("locale-gen"),
                                        content: new_body,
                                    },
                                )
                            },
                        }
                    },
                    Event::ReadDone(Err(e)) => {
                        self.ok = false;
                        step(one(cat("  ! no se pudo leer /etc/locale.gen: ", e.as_str())), Effect::Nothing)
                    },
                    _ => {
                        self.ok = false;
                        step(no_logs(), Effect::Nothing)
                    },
                }
            },
            Waiting::HostsCheck { host, line } => {
                let present = match &event {
                    Event::ReadDone(Ok(body)) => crate::text::contains_str(body.as_str(), host.as_str()),
                    _ => false,
                };
                if present {
                    self.ok = true;
                    step(
                        one(cat("  /etc/hosts ya contiene entrada para ", host.as_str())),
                        Effect::Nothing,
                    )
                } else {
                    self.waiting = Waiting::HostsAppend(line);
                    step(no_logs(), Effect::Read(owned("/etc/hosts")))
                }
            },
            Waiting::HostsAppend(line) => {
                match event {
                    Event::ReadDone(Ok(body)) => {
                        self.waiting = Waiting::Temp(owned("/etc/hosts"));
                        step(
                            no_logs(),
                            Effect::WriteTemp {
                                prefix: owned("hosts"),
                                content: cat(body.as_str(), line.as_str()),
                            },
                        )
                    },
                    Event::ReadDone(Err(e)) => {
                        self.ok = false;
                        step(one(cat("  ! no se pudo leer /etc/hosts: ", e.as_str())), Effect::Nothing)
                    },
                    _ => {
                        self.ok = false;
                        step(no_logs(), Effect::Nothing)
                    },
                }
            },
            Waiting::Reflector => {
                match event {
                    Event::Probed(true) => {
                        self.ok = true;
                        step(no_logs(), Effect::Nothing)
                    },
                    _ => {
                        let mut args: Vec<String> = Vec::new();
                        args.push(owned("pacman"));
                        args.push(owned("-S"));
                        args.push(owned("--needed"));
                        if self.opts.noconfirm {
                            args.push(owned("--noconfirm"));
                        }
                        args.push(owned("reflector"));
                        assert(views(args@) =~= pacman_install_args(self.opts, seq!["reflector"@]));
                        let mut items: Vec<Task> = Vec::new();
                        items.push(run_task("sudo", args, false));
                        let ghost front = items@;
                        assert(task_views(front) =~= seq![TaskV::Run("sudo"@, pacman_install_args(self.opts, seq!["reflector"@]), false)]);
                        self.prepend(items);
                        assert(task_views(self.tasks@) =~= task_views(front) + task_views(pre.tasks@));
                        step(
                            one(owned("  reflector no encontrado: instalando con pacman...")),
                            Effect::Nothing,
                        )
                    },
                }
            },
            Waiting::Yay => {
                match event {
                    Event::Probed(true) => {
                        self.ok = true;
                        step(one(owned("  ✓ yay ya esta instalado en el sistema.")), Effect::Nothing)
                    },
                    _ => {
                        let mut args: Vec<String> = Vec::new();
                        args.push(owned("pacman"));
                        args.push(owned("-S"));
                        args.push(owned("--needed"));
                        if self.opts.noconfirm {
                            args.push(owned("--noconfirm"));
                        }
                        args.push(owned("git"));
                        args.push(owned("base-devel"));
                        assert(views(args@) =~= pacman_install_args(self.opts, seq!["git"@, "base-devel"@]));
                        let mut items: Vec<Task> = Vec::new();
                        items.push(run_task("sudo", args, false));
                        items.push(Task::YayDeps);
                        let ghost front = items@;
                        assert(task_views(front) =~= seq![
                            TaskV::Run("sudo"@, pacman_install_args(self.opts, seq!["git"@, "base-devel"@]), false),
                            TaskV::YayDeps,
                        ]);
                        self.prepend(items);
                        assert(task_views(self.tasks@) =~= task_views(front) + task_views(pre.tasks@));
                        step(
                            one(
                                owned(
                                    "  yay no encontrado: instalando dependencias y compilando desde AUR...",
                                ),
                            ),
                            Effect::Nothing,
                        )
                    },
                }
            },
            Waiting::YayDir => {
                let items = yay_clone_items();
                let ghost front = items@;
                self.prepend(items);
                assert(task_views(self.tasks@) =~= task_views(front) + task_views(pre.tasks@));
                step(no_logs(), Effect::Nothing)
            },
            Waiting::Makepkg(pretty) => {
                let mut logs = match event {
                    Event::Ran(RunOutcome::Success) => {
                        self.ok = true;
                        no_logs()
                    },
                    Event::Ran(RunOutcome::Failed { stderr, code }) => {
                        self.ok = false;
                        failure_lines("makepkg", pretty.as_str(), stderr.as_str(), code)
                    },
                    Event::Ran(RunOutcome::NotSpawned(e)) => {
                        self.ok = false;
                        two(
                            cat("  ! no se pudo ejecutar 'makepkg': ", e.as_str()),
                            owned(
                                "      Sugerencia: makepkg viene con 'pacman' (paquete pacman); revisa que no estes corriendo como root.",
                            ),
                        )
                    },
                    _ => {
                        self.ok = false;
                        no_logs()
                    },
                };
                if self.ok {
                    logs.push(owned("  ✓ yay compilado e instalado."));
                } else {
                    logs.push(owned("  ! makepkg fallo al compilar yay."));
                }
                step(logs, Effect::Nothing)
            },
            Waiting::Boot { params, microcode, intel } => {
                let b = match event {
                    Event::Bootloader(b) => b,
                    _ => Bootloader::Unknown,
                };
                self.boot_with(b, params, microcode, intel)
            },
            Waiting::Grub(p) => {
                let present = match &event {
                    Event::ReadDone(Ok(body)) => crate::text::contains_str(body.as_str(), p.as_str()),
                    _ => false,
                };
                if present {
                    step(one(cat("  parametro de kernel ya presente: ", p.as_str())), Effect::Nothing)
                } else {
                    let mut args: Vec<String> = Vec::new();
                    args.push(owned("sed"));
                    args.push(owned("-i"));
                    args.push(grub_param_expr(p.as_str()));
                    args.push(owned("/etc/default/grub"));
                    assert(views(args@) =~= seq!["sed"@, "-i"@, grub_expr_spec(p@), "/etc/default/grub"@]);
                    let mut items: Vec<Task> = Vec::new();
                    items.push(run_task("sudo", args, false));
                    items.push(Task::Push(cat("grub: +", p.as_str())));
                    let ghost front = items@;
                    assert(task_views(front) =~= seq![
                        TaskV::Run("sudo"@, seq!["sed"@, "-i"@, grub_expr_spec(p@), "/etc/default/grub"@], false),
                        TaskV::Push("grub: +"@ + p@),
                    ]);
                    self.prepend(items);
                    assert(task_views(self.tasks@) =~= task_views(front) + task_views(pre.tasks@));
                    step(no_logs(), Effect::Nothing)
                }
            },
            Waiting::Orphans => {
                let mut logs: Vec<String> = Vec::new();
                let orphans = match event {
                    Event::Orphans(Ok(Some(out))) => nonblank_lines_of(out.as_str()),
                    Event::Orphans(Err(e)) => {
                        logs.push(cat("  ! no se pudo listar huerfanos: ", e.as_str()));
                        Vec::new()
                    },
                    _ => Vec::new(),
                };
                let ghost found = views(orphans@);
                let ghost failed = views(logs@);
                assert(found =~= orphans_found(eg));
                assert(failed =~= match eg {
                    Event::Orphans(Err(e)) => seq!["  ! no se pudo listar huerfanos: "@ + e@],
                    _ => Seq::<Seq<char>>::empty(),
                });
                if orphans.len() == 0 {
                    logs.push(owned("    No hay paquetes huerfanos. Nada que limpiar."));
                    self.record(owned("limpiar huerfanos (sin candidatos)"), true);
                } else {
                    let n = dec_string(orphans.len() as u64);
                    logs.push(cat3("    ", n.as_str(), " huerfano(s) detectado(s)"));
                    let mut args: Vec<String> = Vec::new();
                    args.push(owned("pacman"));
                    args.push(owned("-Rns"));
                    args.push(owned("--noconfirm"));
                    if self.opts.dry_run {
                        args.push(owned("--print"));
                    }
                    let ghost head = views(args@);
                    assert(head =~= seq!["pacman"@, "-Rns"@, "--noconfirm"@] + (if self.opts.dry_run {
                        seq!["--print"@]
                    } else {
                        Seq::<Seq<char>>::empty()
                    }));
                    let mut i: usize = 0;
                    while i < orphans.len()
                        invariant
                            i <= orphans.len(),
                            found == views(orphans@),
                            views(args@) == head + found.take(i as int),
                        decreases orphans.len() - i,
                    {
                        let ghost before = views(args@);
                        args.push(orphans[i].clone());
                        assert(views(args@) =~= before.push(found[i as int]));
                        assert(found.take(i + 1) =~= found.take(i as int).push(found[i as int]));
                        i = i + 1;
                    }
                    assert(found.take(found.len() as int) =~= found);
                    let mut items: Vec<Task> = Vec::new();
                    items.push(run_task("sudo", args, false));
                    items.push(Task::Push(cat3("limpiar huerfanos (", n.as_str(), " paquetes)")));
                    let ghost front = items@;
                    assert(task_views(front) =~= seq![
                        TaskV::Run("sudo"@, head + found, false),
                        TaskV::Push("limpiar huerfanos ("@ + dec(found.len()) + " paquetes)"@),
                    ]);
                    self.prepend(items);
                    assert(task_views(self.tasks@) =~= task_views(front) + task_views(pre.tasks@));
                }
                step(logs, Effect::Nothing)
            },
        };
        proof {
            assert(answered(wg, eg, pre, *self, st));
        }
        st
    }

    /// What the boot loader that was found asks for: GRUB is configured
    /// (backup, each missing parameter, `grub-mkconfig`); for systemd-boot or
    /// an unknown loader the log explains what to add by hand.
    fn boot_with(&mut self, b: Bootloader, params: Vec<String>, microcode: bool, intel: bool) -> (s:
        Step)
        requires
            old(self).inv(),
            old(self).waiting is Nothing,
        ensures
            old(self).evolves(*final(self)),
            s.effect is Nothing,
            boot_answered(b, views(params@), microcode, intel, *old(self), *final(self), s),
            final(self).saved == old(self).saved,
    {
        assert(result_views(self.results@).take(self.results@.len() as int) =~= result_views(
            self.results@,
        ));
        let ghost pv = views(params@);
        let ghost pre = *self;
        match b {
            Bootloader::Grub => {
                let mut items: Vec<Task> = Vec::new();
                if params.len() > 0 {
                    items.push(Task::Backup(owned("/etc/default/grub")));
                    items.push(
                        Task::LogIfFailed(
                            owned(
                                "  ! no se pudo hacer backup de /etc/default/grub; sigo de todas formas",
                            ),
                        ),
                    );
                }
                let ghost head = task_views(items@);
                assert(head =~= if pv.len() > 0 {
                    seq![
                        TaskV::Backup("/etc/default/grub"@),
                        TaskV::LogIfFailed(
                            "  ! no se pudo hacer backup de /etc/default/grub; sigo de todas formas"@,
                        ),
                    ]
                } else {
                    Seq::<TaskV>::empty()
                });
                let mut i: usize = 0;
                while i < params.len()
                    invariant
                        i <= params.len(),
                        pv == views(params@),
                        forall|k: int| 0 <= k < items@.len() ==> !(#[trigger] items@[k] is RemoveFile),
                        task_views(items@) == head + pv.take(i as int).map_values(
                            |p: Seq<char>| TaskV::GrubParam(p),
                        ),
                    decreases params.len() - i,
                {
                    let ghost before = task_views(items@);
                    items.push(Task::GrubParam(params[i].clone()));
                    assert(task_views(items@) =~= before.push(TaskV::GrubParam(pv[i as int])));
                    assert(pv.take(i + 1).map_values(|p: Seq<char>| TaskV::GrubParam(p))
                        =~= pv.take(i as int).map_values(|p: Seq<char>| TaskV::GrubParam(p)).push(
                        TaskV::GrubParam(pv[i as int])));
                    i = i + 1;
                }
                assert(pv.take(pv.len() as int) =~= pv);
                let mut args: Vec<String> = Vec::new();
                args.push(owned("grub-mkconfig"));
                args.push(owned("-o"));
                args.push(owned("/boot/grub/grub.cfg"));
                assert(views(args@) =~= seq!["grub-mkconfig"@, "-o"@, "/boot/grub/grub.cfg"@]);
                items.push(run_task("sudo", args, false));
                items.push(Task::Push(owned("grub-mkconfig")));
                let ghost front = items@;
                assert(task_views(front) =~= grub_tasks(pv));
                self.prepend(items);
                assert(task_views(self.tasks@) =~= task_views(front) + task_views(pre.tasks@));
                step(no_logs(), Effect::Nothing)
            },
            Bootloader::SystemdBoot => {
                let mut logs = one(
                    owned("  systemd-boot detectado. Edita /boot/loader/entries/*.conf:"),
                );
                if microcode {
                    let img = if intel {
                        "intel-ucode.img"
                    } else {
                        "amd-ucode.img"
                    };
                    logs.push(
                        cat(
                            "    - Anade ANTES de la linea 'initrd' existente:  initrd /",
                            img,
                        ),
                    );
                }
                let ghost head = views(logs@);
                let mut i: usize = 0;
                while i < params.len()
                    invariant
                        i <= params.len(),
                        pv == views(params@),
                        views(logs@) == head + pv.take(i as int).map_values(
                            |p: Seq<char>| "    - Anade a la linea 'options':  "@ + p,
                        ),
                    decreases params.len() - i,
                {
                    let ghost before = views(logs@);
                    logs.push(cat("    - Anade a la linea 'options':  ", params[i].as_str()));
                    assert(views(logs@) =~= before.push("    - Anade a la linea 'options':  "@ + pv[i as int]));
                    assert(pv.take(i + 1).map_values(|p: Seq<char>| "    - Anade a la linea 'options':  "@ + p)
                        =~= pv.take(i as int).map_values(|p: Seq<char>| "    - Anade a la linea 'options':  "@ + p).push(
                        "    - Anade a la linea 'options':  "@ + pv[i as int]));
                    i = i + 1;
                }
                assert(pv.take(pv.len() as int) =~= pv);
                assert(views(logs@) =~= manual_boot_logs(true, pv, microcode, intel));
                self.record(owned("systemd-boot (instrucciones en el log)"), true);
                step(logs, Effect::Nothing)
            },
            Bootloader::Unknown => {
                let mut logs = one(
                    owned("  ! No se detecto GRUB ni systemd-boot. Configura el arranque a mano:"),
                );
                if microcode {
                    logs.push(
                        owned("    El microcodigo necesita una linea 'initrd' en tu bootloader."),
                    );
                }
                let ghost head = views(logs@);
                let mut i: usize = 0;
                while i < params.len()
                    invariant
                        i <= params.len(),
                        pv == views(params@),
                        views(logs@) == head + pv.take(i as int).map_values(
                            |p: Seq<char>| "    Anade el parametro de kernel: "@ + p,
                        ),
                    decreases params.len() - i,
                {
                    let ghost before = views(logs@);
                    logs.push(cat("    Anade el parametro de kernel: ", params[i].as_str()));
                    assert(views(logs@) =~= before.push("    Anade el parametro de kernel: "@ + pv[i as int]));
                    assert(pv.take(i + 1).map_values(|p: Seq<char>| "    Anade el parametro de kernel: "@ + p)
                        =~= pv.take(i as int).map_values(|p: Seq<char>| "    Anade el parametro de kernel: "@ + p).push(
                        "    Anade el parametro de kernel: "@ + pv[i as int]));
                    i = i + 1;
                }
                assert(pv.take(pv.len() as int) =~= pv);
                assert(views(logs@) =~= manual_boot_logs(false, pv, microcode, intel));
                self.record(owned("arranque (configurar manualmente)"), true);
                step(logs, Effect::Nothing)
            },
        }
    }

    /// Resumes the installation with the answer to its last effect (or
    /// `Event::Go`) and returns what to log and what to do next. Steps are
    /// only ever added; in a dry run no command runs, no file or directory
    /// is written or removed, and every step is recorded as done (a new
    /// installer starts with nothing failed, and a dry run keeps it so);
    /// `Done` comes once every task is done.
    pub fn resume(&mut self, event: Event) -> (s: Step)
        requires
            old(self).inv(),
        ensures
            old(self).evolves(*final(self)),
            old(self).opts.dry_run ==> !changes_system(s.effect),
            s.effect is Done <==> (old(self).waiting is Nothing && old(self).tasks@.len() == 0),
            s.effect is Done ==> *final(self) == *old(self),
            old(self).waiting is Nothing && old(self).tasks@.len() > 0 ==> task_started(
                task_view(old(self).tasks@[0]),
                *old(self),
                old(self).tasks@.drop_first(),
                *final(self),
                s,
            ),
            old(self).waiting matches Waiting::Run { program, pretty } ==> run_answered(
                program@,
                pretty@,
                event,
                *old(self),
                *final(self),
                s,
            ),
            !(old(self).waiting is Nothing) ==> answered(
                old(self).waiting,
                event,
                *old(self),
                *final(self),
                s,
            ),
            old(self).opts.dry_run && all_done(*old(self)) ==> all_done(*final(self)),
    {
        let ghost pre = *self;
        let mut w = Waiting::Nothing;
        std::mem::swap(&mut w, &mut self.waiting);
        let s = if !matches!(w, Waiting::Nothing) {
            self.answer(w, event)
        } else if self.tasks.len() == 0 {
            assert(result_views(self.results@).take(self.results@.len() as int) =~= result_views(
                self.results@,
            ));
            step(no_logs(), Effect::Done)
        } else {
            let t = self.tasks.remove(0);
            self.start_task(t)
        };
        proof {
            if pre.opts.dry_run && all_done(pre) {
                if !(pre.waiting is Nothing) {
                    lemma_dry_run_answer(pre, *self, s, event);
                } else if pre.tasks@.len() > 0 {
                    lemma_dry_run_start(pre, *self, s);
                }
            }
        }
        s
    }

    /// The steps recorded so far.
    pub fn results(&self) -> (r: &Vec<StepResult>)
        ensures
            r@ == self.results@,
    {
        &self.results
    }
}

} // verus!
