use arch_postinstall::cli::{is_yes, parse_args, plan_lines};
use arch_postinstall::model::InstallPlan;

fn args(v: &[&str]) -> Vec<String> {
    v.iter().map(|s| s.to_string()).collect()
}

#[test]
fn options_are_read_in_order() {
    let cli = parse_args(&args(&["-n", "--yes", "-p", "mi-setup", "--list-profiles"]));
    assert!(cli.dry_run);
    assert!(cli.yes);
    assert_eq!(cli.profile.as_deref(), Some("mi-setup"));
    assert!(cli.list_profiles);
    assert!(!cli.help);
    assert!(!cli.version);
    assert!(cli.unknown.is_empty());
}

#[test]
fn unknown_argument_asks_for_help() {
    let cli = parse_args(&args(&["--raro", "-V", "otro"]));
    assert!(cli.help);
    assert!(cli.version);
    assert_eq!(cli.unknown, vec!["--raro".to_string(), "otro".to_string()]);
}

#[test]
fn profile_without_name_is_none() {
    let cli = parse_args(&args(&["--profile"]));
    assert!(cli.profile.is_none());
    assert!(!cli.help);
    let last = parse_args(&args(&["-p", "a", "-p", "b"]));
    assert_eq!(last.profile.as_deref(), Some("b"));
}

#[test]
fn yes_answers() {
    for a in ["s", "si", "sí", "y", "yes", "  SI \n", "Yes"] {
        assert!(is_yes(a), "{a:?}");
    }
    for a in ["", "n", "no", "sip", "y e s"] {
        assert!(!is_yes(a), "{a:?}");
    }
}

#[test]
fn plan_summary_lines() {
    let plan = InstallPlan::new(
        Some("kde".into()),
        Some("sddm".into()),
        vec!["vim".into(), "git".into()],
        vec![],
    );
    let lines = plan_lines(&plan);
    assert_eq!(
        lines,
        vec![
            "".to_string(),
            "── Plan de instalacion ──".to_string(),
            "  Entorno        : kde".to_string(),
            "  Display manager: sddm".to_string(),
            "  Oficiales (2) : vim, git".to_string(),
            "  AUR (0)       : (ninguno)".to_string(),
            "".to_string(),
        ]
    );
    let bare = plan_lines(&InstallPlan::new(None, None, vec![], vec!["yay".into()]));
    assert_eq!(bare.len(), 5);
    assert_eq!(bare[3], "  AUR (1)       : yay");
}

#[test]
fn yes_words_are_lower_case() {
    assert!(arch_postinstall::cli::is_yes_word("sí"));
    assert!(!arch_postinstall::cli::is_yes_word("SI"));
    assert!(!arch_postinstall::cli::is_yes_word(" s"));
}
