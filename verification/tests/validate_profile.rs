use arch_postinstall::model::Profile;
use arch_postinstall::validate_profile::{names_in_si_output, validate, PackageLookup, ValidateReport};

fn sample_profile() -> Profile {
    Profile {
        name: "test".into(),
        desktop_environment: Some("hyprland".into()),
        display_manager: Some("sddm".into()),
        official_packages: vec!["firefox".into(), "vim".into()],
        aur_packages: vec!["spotify".into()],
        mirror_region: Some("Mexico".into()),
        locale: None,
        timezone: None,
        keymap: None,
        hostname: None,
    }
}

#[test]
fn fields_validate_format() {
    let p = sample_profile();
    let r = validate(&p, None);
    let all_ok = r.fields.iter().all(|f| f.ok);
    assert!(all_ok);
}

#[test]
fn fields_detect_bad_locale() {
    let mut p = sample_profile();
    p.locale = Some("BAD LOCALE WITH SPACES".into());
    let r = validate(&p, None);
    let locale_check = r.fields.iter().find(|f| f.name == "locale").unwrap();
    assert!(!locale_check.ok);
}

#[test]
fn fields_detect_bad_timezone() {
    let mut p = sample_profile();
    p.timezone = Some("../etc/passwd".into());
    let r = validate(&p, None);
    let tz = r.fields.iter().find(|f| f.name == "timezone").unwrap();
    assert!(!tz.ok);
}

#[test]
fn fields_detect_bad_hostname() {
    let mut p = sample_profile();
    p.hostname = Some("-invalid-".into());
    let r = validate(&p, None);
    let h = r.fields.iter().find(|f| f.name == "hostname").unwrap();
    assert!(!h.ok);
}

#[test]
fn is_ok_requires_no_missing() {
    let mut r = ValidateReport {
        profile_name: "x".into(),
        fields: vec![],
        missing_official: vec!["foo".into()],
        missing_aur: vec![],
        found_official: 0,
        found_aur: 0,
        api_errors: vec![],
    };
    assert!(!r.is_ok());
    r.missing_official.clear();
    r.missing_aur.push("bar".into());
    assert!(!r.is_ok());
    r.missing_aur.clear();
    assert!(r.is_ok());
}

#[test]
fn lookup_finds_missing_packages() {
    let p = sample_profile();
    let lookup = PackageLookup {
        official: Ok(vec!["firefox".to_string()]),
        aur: Err("sin conexion".to_string()),
    };
    let r = validate(&p, Some(&lookup));
    assert_eq!(r.missing_official, vec!["vim".to_string()]);
    assert_eq!(r.found_official, 1);
    assert!(!r.api_errors.is_empty());
    assert!(!r.is_ok());
}

#[test]
fn si_output_names() {
    let out = "Repository : extra\nName            : firefox\nVersion : 1\n\nName            : vim\nName : otro\n";
    assert_eq!(names_in_si_output(out), vec!["firefox".to_string(), "vim".to_string()]);
}
