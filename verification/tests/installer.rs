use arch_postinstall::detect::Bootloader;
use arch_postinstall::installer::{
    command_line, failure_lines, grub_param_expr, hint_for_failure, hosts_line, summary_lines,
    uncomment_locale_line, unit_name, Effect, Event, InstallOptions, Installer, RunOutcome,
    StepResult,
};
use arch_postinstall::model::InstallPlan;
use arch_postinstall::preflight::PreflightReport;

/// Runs the machine to the end, answering each effect with `answer`.
fn drive(m: &mut Installer, answer: &mut dyn FnMut(&Effect) -> Event) -> (Vec<String>, Vec<String>) {
    let mut logs = Vec::new();
    let mut effects = Vec::new();
    let mut event = Event::Go;
    for _ in 0..10_000 {
        let step = m.resume(event);
        logs.extend(step.logs);
        if matches!(step.effect, Effect::Done) {
            return (logs, effects);
        }
        effects.push(format!("{:?}", step.effect));
        event = answer(&step.effect);
    }
    panic!("la instalacion no termino");
}

fn quiet(e: &Effect) -> Event {
    match e {
        Effect::Preflight => Event::Preflighted(PreflightReport { checks: vec![] }),
        Effect::Command { .. } | Effect::CommandIn { .. } | Effect::Shell(_) => Event::Ran(RunOutcome::Success),
        Effect::Probe(_) => Event::Probed(false),
        Effect::Exists(_) => Event::Existed(false),
        Effect::Read(_) => Event::ReadDone(Ok("#es_MX.UTF-8 UTF-8\n127.0.0.1 localhost\n".to_string())),
        Effect::WriteTemp { .. } => Event::TempWritten { path: "/tmp/t".to_string(), result: Ok(()) },
        Effect::FindBootloader => Event::Bootloader(Bootloader::Grub),
        Effect::ListOrphans => Event::Orphans(Ok(Some("huerfano\n".to_string()))),
        _ => Event::Go,
    }
}

fn full_plan() -> InstallPlan {
    let mut plan = InstallPlan::new(
        Some("kde".into()),
        Some("sddm".into()),
        vec!["firefox".into(), "intel-ucode".into(), "nvidia".into(), "vim".into()],
        vec!["spotify".into()],
    );
    plan.locale = Some("es_MX.UTF-8".into());
    plan.timezone = Some("America/Mexico_City".into());
    plan.keymap = Some("la-latin1".into());
    plan.hostname = Some("caja".into());
    plan.mirror_region = Some("Mexico".into());
    plan.enable_multilib = true;
    plan.cleanup_orphans = true;
    plan.post_install = vec!["echo \"hola\"".into()];
    plan
}

fn labels(m: &Installer) -> Vec<String> {
    m.results().iter().map(|r| r.label.clone()).collect()
}

#[test]
fn dry_run_changes_nothing() {
    let opts = InstallOptions { dry_run: true, skip_official: vec!["vim".into()], ..Default::default() };
    let mut m = Installer::new(&full_plan(), opts);
    let (logs, effects) = drive(&mut m, &mut quiet);
    for e in &effects {
        assert!(
            !(e.starts_with("Command") || e.starts_with("CommandIn") || e.starts_with("Shell") || e.starts_with("WriteTemp") || e.starts_with("RemoveFile") || e.starts_with("RemoveDir")),
            "efecto en dry-run: {e}"
        );
    }
    assert!(logs.iter().any(|l| l == "[dry-run] sudo pacman -Syu"));
    assert!(logs.iter().any(|l| l == "  ↪ vim ya esta instalado, se omite"));
    assert!(logs.iter().any(|l| l.starts_with("[dry-run] sh -c ")));
    assert!(m.results().iter().all(|r| r.ok));
    let l = labels(&m);
    let syu = l.iter().position(|x| x == "pacman -Syu").unwrap();
    let aur = l.iter().position(|x| x == "yay: spotify").unwrap();
    let fx = l.iter().position(|x| x == "pacman: firefox").unwrap();
    assert!(syu < aur && aur < fx, "AUR antes que los oficiales: {l:?}");
    assert!(l.contains(&"pacman: vim (ya instalado)".to_string()));
    assert!(l.contains(&"post-install: echo \"hola\"".to_string()));
}

#[test]
fn dry_run_records_every_step_as_done() {
    let mut m = Installer::new(&full_plan(), InstallOptions { dry_run: true, ..Default::default() });
    let mut answer = |e: &Effect| match e {
        Effect::Probe(_) => Event::Probed(true),
        Effect::Exists(_) => Event::Existed(true),
        Effect::FindBootloader => Event::Bootloader(Bootloader::SystemdBoot),
        Effect::ListOrphans => Event::Orphans(Err("sin pacman".to_string())),
        other => quiet(other),
    };
    let (logs, _) = drive(&mut m, &mut answer);
    assert!(m.results().iter().all(|r| r.ok), "{:?}", labels(&m));
    let l = labels(&m);
    assert!(l.contains(&"locale es_MX.UTF-8".to_string()));
    assert!(l.contains(&"hostname caja".to_string()));
    assert!(l.contains(&"systemd-boot (instrucciones en el log)".to_string()));
    assert!(l.contains(&"limpiar huerfanos (sin candidatos)".to_string()));
    assert!(logs.iter().any(|x| x == "  ! no se pudo listar huerfanos: sin pacman"));
}

#[test]
fn failed_package_does_not_stop_the_rest() {
    let plan = InstallPlan::new(None, None, vec!["roto".into(), "vim".into()], vec![]);
    let mut m = Installer::new(&plan, InstallOptions::default());
    let mut answer = |e: &Effect| match e {
        Effect::Command { args, .. } if args.iter().any(|a| a == "roto") => Event::Ran(RunOutcome::Failed {
            stderr: "error: target not found: roto\n".to_string(),
            code: Some(1),
        }),
        other => quiet(other),
    };
    let (logs, _) = drive(&mut m, &mut answer);
    let res: Vec<(String, bool)> = m.results().iter().map(|r| (r.label.clone(), r.ok)).collect();
    assert!(res.contains(&("pacman: roto".to_string(), false)));
    assert!(res.contains(&("pacman: vim".to_string(), true)));
    assert!(logs.iter().any(|l| l == "  ! fallo (codigo Some(1)): sudo pacman -S --needed roto"));
    assert!(logs.iter().any(|l| l == "      | error: target not found: roto"));
}

#[test]
fn real_run_asks_for_the_commands() {
    let mut m = Installer::new(&full_plan(), InstallOptions { noconfirm: true, ..Default::default() });
    let (logs, effects) = drive(&mut m, &mut quiet);
    assert!(effects.iter().any(|e| e.contains("\"-Syu\", \"--noconfirm\"")));
    assert!(effects.iter().any(|e| e.starts_with("WriteTemp")));
    assert!(effects.iter().any(|e| e.starts_with("RemoveFile")));
    assert!(logs.iter().any(|l| l == "$ sh -c \"echo \\\"hola\\\"\""));
    let l = labels(&m);
    assert!(l.contains(&"grub: +nvidia-drm.modeset=1".to_string()));
    assert!(l.contains(&"limpiar huerfanos (1 paquetes)".to_string()));
    assert!(l.contains(&"enable sddm".to_string()));
    assert!(l.contains(&"hostname caja".to_string()));
}

#[test]
fn helpers_format_as_expected() {
    assert_eq!(unit_name("sddm"), "sddm.service");
    assert_eq!(unit_name("pipewire.socket"), "pipewire.socket");
    assert_eq!(command_line("sudo", &vec!["pacman".to_string(), "-Syu".to_string()]), "sudo pacman -Syu");
    assert_eq!(hosts_line("caja"), "127.0.1.1 caja.localdomain caja\n");
    assert_eq!(grub_param_expr("x=1"), "s/\\(GRUB_CMDLINE_LINUX_DEFAULT=\"[^\"]*\\)\"/\\1 x=1\"/");
}

#[test]
fn hints_follow_the_program_and_error() {
    assert!(hint_for_failure("pacman", "error: TARGET NOT FOUND").unwrap().starts_with("el paquete no existe en los repos"));
    assert!(hint_for_failure("pacman", "database is locked").unwrap().starts_with("otra instancia"));
    assert!(hint_for_failure("yay", "x").unwrap().starts_with("los paquetes AUR"));
    assert!(hint_for_failure("sudo", "").unwrap().starts_with("comprueba que tu usuario"));
    assert_eq!(hint_for_failure("cp", "x"), None);
    let lines = failure_lines("ln", "sudo ln -sf a b", "\n  uno \n\ndos\ntres\ncuatro\ncinco\nseis\n", None);
    assert_eq!(lines.len(), 7);
    assert_eq!(lines[0], "  ! fallo (codigo None): sudo ln -sf a b");
    assert_eq!(lines[1], "      | uno");
    assert!(lines[6].starts_with("      Sugerencia: el destino"));
    let neg = failure_lines("x", "x", "", Some(-2));
    assert_eq!(neg, vec!["  ! fallo (codigo Some(-2)): x".to_string()]);
}

#[test]
fn locale_line_is_uncommented_once() {
    let body = "#en_US.UTF-8 UTF-8\n#es_MX.UTF-8 UTF-8\n#es_MX.UTF-8 ISO\n";
    assert_eq!(
        uncomment_locale_line(body, "es_MX.UTF-8").as_deref(),
        Some("#en_US.UTF-8 UTF-8\nes_MX.UTF-8 UTF-8\n#es_MX.UTF-8 ISO\n")
    );
    assert_eq!(uncomment_locale_line("es_MX.UTF-8 UTF-8\n", "es_MX.UTF-8"), None);
    assert_eq!(uncomment_locale_line("#es_MX.UTF-8 UTF-8", "es_MX.UTF-8").as_deref(), Some("es_MX.UTF-8 UTF-8"));
}

#[test]
fn summary_lists_failures() {
    let results = vec![
        StepResult { label: "a".into(), ok: true },
        StepResult { label: "b".into(), ok: false },
    ];
    let lines = summary_lines(&results, Some("/tmp/x.log"));
    assert_eq!(
        lines,
        vec![
            "",
            "==> Resumen: 1/2 pasos correctos.",
            "    1 paso(s) fallaron:",
            "      - b",
            "    Cada fallo se registro en el log con su 'stderr' y una sugerencia.",
            "    Log completo: /tmp/x.log",
            "    Puedes volver a ejecutar el programa: los pasos ya completados se saltaran.",
        ]
    );
    let first: Vec<StepResult> = results[..1].iter().map(|r| StepResult { label: r.label.clone(), ok: r.ok }).collect();
    let ok = summary_lines(&first, None);
    assert_eq!(ok[2], "    Todo se instalo correctamente.");
    assert_eq!(ok.len(), 4);
}

#[test]
fn skip_lists_pick_the_manager() {
    let o = InstallOptions { skip_official: vec!["vim".into()], skip_aur: vec!["yay".into()], ..Default::default() };
    assert!(o.should_skip("pacman", "vim"));
    assert!(!o.should_skip("pacman", "yay"));
    assert!(o.should_skip("yay", "yay"));
    assert!(!o.should_skip("yay", "vim"));
}

#[test]
fn command_that_cannot_start_is_recorded_failed() {
    let plan = InstallPlan::new(None, None, vec!["vim".into()], vec![]);
    let mut m = Installer::new(&plan, InstallOptions::default());
    let mut answer = |e: &Effect| match e {
        Effect::Command { args, .. } if args.iter().any(|a| a == "vim") => {
            Event::Ran(RunOutcome::NotSpawned("no such file".to_string()))
        }
        other => quiet(other),
    };
    let (logs, _) = drive(&mut m, &mut answer);
    assert!(logs.iter().any(|l| l == "  ! no se pudo ejecutar 'sudo': no such file"));
    assert!(logs
        .iter()
        .any(|l| l == "      Sugerencia: comprueba que 'sudo' este instalado y en el PATH."));
    let res: Vec<(String, bool)> = m.results().iter().map(|r| (r.label.clone(), r.ok)).collect();
    assert!(res.contains(&("pacman: vim".to_string(), false)));
}

#[test]
fn first_command_is_handed_out_as_compiled() {
    let plan = InstallPlan::new(None, None, vec!["vim".into()], vec![]);
    let mut m = Installer::new(&plan, InstallOptions::default());
    let mut event = Event::Go;
    let mut shown = Vec::new();
    loop {
        let step = m.resume(event);
        shown.extend(step.logs);
        match step.effect {
            Effect::Command { program, args } if args.iter().any(|a| a == "vim") => {
                assert_eq!(program, "sudo");
                assert_eq!(args, vec!["pacman", "-S", "--needed", "vim"]);
                break;
            }
            Effect::Done => panic!("no se pidio instalar vim"),
            other => event = quiet(&other),
        }
    }
    assert_eq!(shown.last().map(String::as_str), Some("$ sudo pacman -S --needed vim"));
}

#[test]
fn skipped_package_gets_no_command() {
    let plan = InstallPlan::new(None, None, vec!["vim".into(), "git".into()], vec![]);
    let opts = InstallOptions { skip_official: vec!["vim".into()], ..Default::default() };
    let mut m = Installer::new(&plan, opts);
    let (logs, effects) = drive(&mut m, &mut quiet);
    assert!(!effects.iter().any(|e| e.starts_with("Command") && e.contains("\"vim\"")));
    assert!(effects.iter().any(|e| e.starts_with("Command") && e.contains("\"git\"")));
    assert!(logs.iter().any(|l| l == "  ↪ vim ya esta instalado, se omite"));
    let res: Vec<(String, bool)> = m.results().iter().map(|r| (r.label.clone(), r.ok)).collect();
    assert!(res.contains(&("pacman: vim (ya instalado)".to_string(), true)));
}

fn hostname_plan() -> InstallPlan {
    let mut plan = InstallPlan::new(None, None, vec![], vec![]);
    plan.hostname = Some("caja".into());
    plan
}

/// Answers the existence probes: the backup copy exists when `bak`, the
/// source file when `src`.
fn with_files(bak: bool, src: bool) -> impl FnMut(&Effect) -> Event {
    move |e: &Effect| match e {
        Effect::Exists(p) if p.ends_with(".arch-postinstall.bak") => Event::Existed(bak),
        Effect::Exists(_) => Event::Existed(src),
        other => quiet(other),
    }
}

#[test]
fn backup_skips_when_source_missing() {
    let mut m = Installer::new(&hostname_plan(), InstallOptions::default());
    let (logs, effects) = drive(&mut m, &mut with_files(false, false));
    assert!(!effects.iter().any(|e| e.contains("\"cp\"")));
    assert!(!logs.iter().any(|l| l.contains("no se pudo hacer backup")));
    assert!(m.results().iter().any(|r| r.label == "hostname caja" && r.ok));
}

#[test]
fn backup_dry_run_logs_intent() {
    let opts = InstallOptions { dry_run: true, ..Default::default() };
    let mut m = Installer::new(&hostname_plan(), opts);
    let (logs, effects) = drive(&mut m, &mut with_files(false, true));
    assert!(logs.iter().any(|l| l == "[dry-run] sudo cp /etc/hostname /etc/hostname.arch-postinstall.bak"));
    assert!(!effects.iter().any(|e| e.starts_with("Command")));
}

#[test]
fn backup_does_not_overwrite_existing() {
    let mut m = Installer::new(&hostname_plan(), InstallOptions::default());
    let (logs, effects) = drive(&mut m, &mut with_files(true, true));
    assert!(logs.iter().any(|l| l == "  backup ya existe: /etc/hostname.arch-postinstall.bak"));
    assert!(!effects.iter().any(|e| e.contains("\"cp\"")));
}

#[test]
fn backup_is_copied_before_writing() {
    let mut m = Installer::new(&hostname_plan(), InstallOptions::default());
    let (logs, effects) = drive(&mut m, &mut with_files(false, true));
    assert!(logs.iter().any(|l| l == "  backup /etc/hostname -> /etc/hostname.arch-postinstall.bak"));
    let cp = effects
        .iter()
        .position(|e| e.contains("\"cp\", \"/etc/hostname\", \"/etc/hostname.arch-postinstall.bak\""))
        .expect("copia de seguridad");
    let write = effects.iter().position(|e| e.starts_with("WriteTemp")).expect("escritura");
    assert!(cp < write);
}

#[test]
fn hints_from_lower_case_output() {
    assert!(arch_postinstall::installer::hint_for_lowered("pacman", "error: target not found: x").unwrap().starts_with("el paquete no existe"));
    assert!(arch_postinstall::installer::hint_for_lowered("pacman", "TARGET NOT FOUND").unwrap().starts_with("ejecuta 'sudo pacman -Syu'"));
    assert_eq!(arch_postinstall::installer::hint_for_lowered("cp", "x"), None);
}

#[test]
fn dry_run_never_removes_the_build_directory() {
    let plan = InstallPlan::new(None, None, vec![], vec!["spotify".into()]);
    let opts = InstallOptions { dry_run: true, ..Default::default() };
    let mut m = Installer::new(&plan, opts);
    let (logs, effects) = drive(&mut m, &mut quiet);
    assert!(!effects.iter().any(|e| e.starts_with("RemoveDir")));
    assert!(logs.iter().any(|l| l == "[dry-run] git clone https://aur.archlinux.org/yay.git /tmp/yay-postinstall"));
    assert!(m.results().iter().all(|r| r.ok));
}
