use arch_postinstall::estimate::{estimate, PackageSizes, PlanEstimate, GIB};
use arch_postinstall::model::InstallPlan;
use arch_postinstall::preflight::{check_disk_for_estimate, CheckStatus, PreflightProbe, PreflightReport};

fn probe() -> PreflightProbe {
    PreflightProbe {
        is_root: false,
        sudo_installed: true,
        sudo_nopasswd: Some(true),
        internet: Some("archlinux.org".to_string()),
        pacman_lock: false,
        free_bytes: Some(50 * GIB),
        etc_writable: false,
        git: true,
        make: true,
        gcc: true,
        reflector: true,
    }
}

#[test]
fn report_runs_all_checks() {
    let lite = PreflightReport::run(false, &probe());
    assert_eq!(lite.checks.len(), 7);
    let aur = PreflightReport::run(true, &probe());
    assert_eq!(aur.checks.len(), 10);
}

#[test]
fn helpers_handle_empty_status() {
    let empty = PreflightReport { checks: vec![] };
    assert!(empty.all_ok());
    assert!(!empty.has_warnings());
    assert!(!empty.has_failures());
}

#[test]
fn disk_for_estimate_skips_empty_plan() {
    let est = estimate(&[], &[], &[], &[], None, None);
    let r = check_disk_for_estimate(&est);
    assert!(r.is_none());
}

#[test]
fn disk_for_estimate_fails_when_short() {
    let est = PlanEstimate {
        official: PackageSizes { install_bytes: 5 * GIB, ..Default::default() },
        free_bytes: Some(3 * GIB),
        ..Default::default()
    };
    let c = check_disk_for_estimate(&est).unwrap();
    assert_eq!(c.status, CheckStatus::Fail);
    assert_eq!(c.detail, "necesitas 5.0 GB pero solo hay 3.0 GB libres en /");
}

#[test]
fn run_for_plan_appends_estimate_check() {
    let plan = InstallPlan::new(None, None, vec!["vim".to_string()], vec![]);
    let est = estimate(&plan.official, &plan.aur, &[], &[], None, Some(10 * GIB));
    let lite = PreflightReport::run(false, &probe());
    let for_plan = PreflightReport::run_for_plan(&plan, &est, &probe());
    assert!(for_plan.checks.len() >= lite.checks.len());
    assert_eq!(for_plan.checks.len(), lite.checks.len() + 1);
}

#[test]
fn package_sizes_default_is_zero() {
    let s = PackageSizes::default();
    assert_eq!(s.download_bytes, 0);
    assert_eq!(s.install_bytes, 0);
    assert_eq!(s.unknown, 0);
}

#[test]
fn failed_checks_are_reported() {
    let mut p = probe();
    p.pacman_lock = true;
    p.internet = None;
    let r = PreflightReport::run(false, &p);
    assert!(r.has_failures());
    assert!(!r.all_ok());
    let lines = r.log_lines();
    assert_eq!(lines[0], "==> Pre-flight checks");
    assert_eq!(lines.len(), r.checks.len() + 1);
    assert!(lines.iter().any(|l| l.starts_with("  [ FAIL ] ")));
}

#[test]
fn plenty_of_space_passes() {
    let est = PlanEstimate {
        official: PackageSizes { install_bytes: GIB, ..Default::default() },
        free_bytes: Some(10 * GIB),
        ..Default::default()
    };
    let c = check_disk_for_estimate(&est).unwrap();
    assert_eq!(c.status, CheckStatus::Pass);
}

#[test]
fn plan_report_extends_the_base_report() {
    let empty = InstallPlan::new(None, None, vec![], vec![]);
    let est = estimate(&empty.official, &empty.aur, &[], &[], None, None);
    assert_eq!(PreflightReport::run_for_plan(&empty, &est, &probe()).checks.len(), 7);
    let mut plan = InstallPlan::new(None, None, vec![], vec!["yay".to_string()]);
    plan.mirror_region = Some("Mexico".to_string());
    let est = estimate(&plan.official, &plan.aur, &[], &[], None, Some(10 * GIB));
    let base = PreflightReport::run(true, &probe());
    let r = PreflightReport::run_for_plan(&plan, &est, &probe());
    assert_eq!(r.checks.len(), base.checks.len() + 2);
    for (a, b) in base.checks.iter().zip(r.checks.iter()) {
        assert_eq!(a.name, b.name);
    }
    assert_eq!(r.checks.last().unwrap().name, "reflector");
}
