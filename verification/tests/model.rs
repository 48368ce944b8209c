use arch_postinstall::model::{format_list_or_none, format_system_settings, InstallPlan, Profile, SystemLabelStyle};

fn sample_plan() -> InstallPlan {
    InstallPlan::new(
        Some("hyprland".into()),
        Some("sddm".into()),
        vec!["firefox".into(), "kitty".into()],
        vec!["spotify".into()],
    )
}

#[test]
fn plan_roundtrip_through_profile() {
    let plan = sample_plan();
    let profile = Profile::from_plan("mi-setup", &plan);
    let back = profile.into_plan();
    assert_eq!(back.desktop_env_id, plan.desktop_env_id);
    assert_eq!(back.display_manager, plan.display_manager);
    assert_eq!(back.official, plan.official);
    assert_eq!(back.aur, plan.aur);
}

#[test]
fn empty_plan_is_empty() {
    let plan = InstallPlan::new(None, None, vec![], vec![]);
    assert!(plan.is_empty());
    assert!(!sample_plan().is_empty());
}

#[test]
fn services_are_derived_from_packages() {
    let plan = InstallPlan::new(
        Some("kde".into()),
        Some("sddm".into()),
        vec![
            "networkmanager".into(),
            "bluez".into(),
            "pipewire".into(),
            "pipewire-pulse".into(),
            "wireplumber".into(),
        ],
        vec![],
    );
    assert!(plan.services.contains(&"sddm".to_string()));
    assert!(plan.services.contains(&"NetworkManager".to_string()));
    assert!(plan.services.contains(&"bluetooth".to_string()));
    assert_eq!(plan.user_services, vec!["pipewire", "pipewire-pulse", "wireplumber"]);
}

#[test]
fn no_services_without_relevant_packages() {
    let plan = InstallPlan::new(None, None, vec!["firefox".into()], vec![]);
    assert!(plan.services.is_empty());
    assert!(plan.user_services.is_empty());
}

#[test]
fn detects_microcode_and_nvidia() {
    let plan = InstallPlan::new(None, None, vec!["nvidia".into(), "intel-ucode".into()], vec![]);
    assert!(plan.has_microcode());
    assert!(plan.has_nvidia());
    assert_eq!(plan.kernel_params(), vec!["nvidia-drm.modeset=1".to_string()]);

    let plain = InstallPlan::new(None, None, vec!["firefox".into()], vec![]);
    assert!(!plain.has_microcode());
    assert!(!plain.has_nvidia());
    assert!(plain.kernel_params().is_empty());
}

#[test]
fn blank_profile_fields_normalize_to_none() {
    let profile = Profile {
        name: "min".into(),
        desktop_environment: Some("".into()),
        display_manager: Some("  ".into()),
        official_packages: vec![],
        aur_packages: vec![],
        mirror_region: Some(" Mexico ".into()),
        locale: None,
        timezone: None,
        keymap: None,
        hostname: None,
    };
    let plan = profile.into_plan();
    assert!(plan.desktop_env_id.is_none());
    assert!(plan.display_manager.is_none());
    assert!(plan.services.is_empty());
    assert_eq!(plan.mirror_region.as_deref(), Some("Mexico"));
    assert!(plan.is_empty());
}

#[test]
fn profile_with_empty_strings_normalizes_to_none() {
    let parsed = Profile {
        name: "min".into(),
        desktop_environment: Some("".into()),
        display_manager: Some("".into()),
        official_packages: vec![],
        aur_packages: vec![],
        mirror_region: None,
        locale: None,
        timezone: None,
        keymap: None,
        hostname: None,
    };
    let plan = parsed.into_plan();
    assert!(plan.desktop_env_id.is_none());
    assert!(plan.display_manager.is_none());
    assert!(plan.services.is_empty());
}

#[test]
fn settings_are_listed_in_order() {
    let short = format_system_settings(Some("es_MX.UTF-8"), None, Some("la-latin1"), None, Some("Mexico"), true, true, SystemLabelStyle::Short);
    assert_eq!(short, vec!["locale", "teclado", "mirrors", "multilib", "reiniciar"]);
    let detailed = format_system_settings(Some("es_MX.UTF-8"), Some("UTC"), None, Some("caja"), None, false, false, SystemLabelStyle::Detailed);
    assert_eq!(detailed, vec!["locale=es_MX.UTF-8", "zona=UTC", "hostname=caja"]);
    assert_eq!(format_list_or_none(&[]), "(ninguno)");
    assert_eq!(format_list_or_none(&["a".to_string(), "b".to_string()]), "a, b");
}
