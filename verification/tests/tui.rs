use arch_postinstall::catalog::desktop_environments;
use arch_postinstall::detect::SystemStatus;
use arch_postinstall::model::{InstallPlan, Profile};
use arch_postinstall::repo_api::Found;
use arch_postinstall::tui::{
    help_text, install_counts, join_with_source, lookup_de_label, menu_labels, move_cursor, review_services, toggle_into, truncate,
    App, Key,
    Mode, Outcome,
    PickerState, PickerTarget, PkgItem, Request,
};

fn new_app() -> App {
    App::new(SystemStatus::empty(), None)
}

#[test]
fn build_plan_without_env_has_no_base() {
    let mut app = new_app();
    app.de_index = 0;
    let plan = app.build_plan();
    assert!(plan.desktop_env_id.is_none());
    assert!(plan.display_manager.is_none());
    assert!(!plan.official.iter().any(|p| p == "xorg-server"));
}

#[test]
fn build_plan_with_env_includes_base_and_dm() {
    let mut app = new_app();
    let idx = desktop_environments().iter().position(|d| d.id == "kde").unwrap();
    app.de_index = idx;
    let plan = app.build_plan();
    assert_eq!(plan.desktop_env_id.as_deref(), Some("kde"));
    assert_eq!(plan.display_manager.as_deref(), Some("sddm"));
    assert!(plan.official.iter().any(|p| p == "xorg-server"));
    assert!(plan.official.iter().any(|p| p == "plasma-meta"));
    assert!(plan.official.iter().any(|p| p == "sddm"));
}

#[test]
fn build_plan_deduplicates() {
    let mut app = new_app();
    let idx = desktop_environments().iter().position(|d| d.id == "hyprland").unwrap();
    app.de_index = idx;
    let plan = app.build_plan();
    let count = plan.official.iter().filter(|p| *p == "kitty").count();
    assert_eq!(count, 1, "los paquetes no deben repetirse en el plan");
}

#[test]
fn apply_profile_marks_and_adds_packages() {
    let mut app = new_app();
    let prof = Profile {
        name: "t".into(),
        desktop_environment: Some("gnome".into()),
        display_manager: Some("gdm".into()),
        official_packages: vec!["firefox".into(), "paquete-nuevo".into()],
        aur_packages: vec![],
        mirror_region: Some("Mexico".into()),
        locale: None,
        timezone: None,
        keymap: None,
        hostname: None,
    };
    app.apply_profile(prof);
    assert_eq!(desktop_environments()[app.de_index].id, "gnome");
    let firefox = app.official.iter().find(|p| p.name == "firefox").unwrap();
    assert!(firefox.selected);
    let nuevo = app.official.iter().find(|p| p.name == "paquete-nuevo").unwrap();
    assert!(nuevo.selected);
    let vlc = app.official.iter().find(|p| p.name == "vlc").unwrap();
    assert!(!vlc.selected);
    assert_eq!(app.sys_mirror_region, "Mexico");
    assert_eq!(app.status, "Perfil 't' cargado.");
}

#[test]
fn move_cursor_wraps_and_jumps() {
    let mut c = 0usize;
    move_cursor(&mut c, 5, Key::Up);
    assert_eq!(c, 4, "subir desde el inicio envuelve al final");
    move_cursor(&mut c, 5, Key::Down);
    assert_eq!(c, 0);
    move_cursor(&mut c, 5, Key::End);
    assert_eq!(c, 4);
    move_cursor(&mut c, 5, Key::Home);
    assert_eq!(c, 0);
    move_cursor(&mut c, 50, Key::PageDown);
    assert_eq!(c, 10);
    move_cursor(&mut c, 0, Key::Down);
    assert_eq!(c, 10);
}

#[test]
fn move_cursor_stays_in_range() {
    for len in 1..15usize {
        for start in 0..len {
            for key in [Key::Up, Key::Down, Key::Home, Key::End, Key::PageUp, Key::PageDown, Key::Char('j'), Key::Char('k'), Key::Char('x')] {
                let mut c = start;
                move_cursor(&mut c, len, key);
                assert!(c < len);
            }
        }
    }
    let mut c = usize::MAX;
    move_cursor(&mut c, 3, Key::Down);
    assert!(c < 3);
}

#[test]
fn picker_state_prepends_custom_option() {
    let p = PickerState::new("Test", vec!["a".into(), "b".into(), "c".into()], "b".into(), PickerTarget::Locale);
    assert_eq!(p.options[0], "(Personalizado...)");
    assert_eq!(p.filtered().len(), 4);
    assert_eq!(p.current, "b");
}

#[test]
fn picker_filter_is_case_insensitive_and_substring() {
    let mut p = PickerState::new(
        "Test",
        vec!["es_MX.UTF-8".into(), "es_ES.UTF-8".into(), "en_US.UTF-8".into()],
        String::new(),
        PickerTarget::Locale,
    );
    p.filter = "ES".into();
    let hits: Vec<&str> = p.filtered();
    assert_eq!(hits.len(), 2);
    assert!(hits.contains(&"es_MX.UTF-8"));
    assert!(hits.contains(&"es_ES.UTF-8"));
    p.filter = "xyz".into();
    assert!(p.filtered().is_empty());
    p.filter = String::new();
    assert_eq!(p.filtered().len(), 4);
}

fn item(name: &str, selected: bool) -> PkgItem {
    PkgItem { name: name.to_string(), description: "d".to_string(), selected, installed: false }
}

#[test]
fn toggling_twice_restores_the_list() {
    let mut v = vec![item("a", true), item("b", false)];
    assert!(toggle_into(&mut v, "b", "x", false));
    assert!(v[1].selected);
    assert!(!toggle_into(&mut v, "b", "x", false));
    assert!(!v[1].selected);
    assert_eq!(v.len(), 2);
    assert!(toggle_into(&mut v, "c", "nuevo", true));
    assert_eq!(v.len(), 3);
    assert_eq!(v[2].description, "nuevo");
    assert!(v[2].installed);
}

#[test]
fn wizard_walks_to_review_and_confirms() {
    let mut app = new_app();
    assert!(matches!(app.handle_key(Key::Enter), Request::Nothing));
    assert_eq!(app.mode, Mode::Main);
    for _ in 0..9 {
        app.handle_key(Key::Down);
    }
    assert_eq!(app.main_cursor, 9);
    app.handle_key(Key::Enter);
    assert_eq!(app.mode, Mode::Review);
    match app.handle_key(Key::Enter) {
        Request::Finish(Outcome::Confirmed { plan, save_as }) => {
            assert!(save_as.is_none());
            assert!(plan.official.iter().any(|p| p == "firefox"));
        }
        _ => panic!("se esperaba la confirmacion del plan"),
    }
}

#[test]
fn search_results_can_be_added() {
    let mut app = new_app();
    app.mode = Mode::Main;
    app.main_cursor = 6;
    app.handle_key(Key::Enter);
    assert_eq!(app.mode, Mode::Search);
    assert!(app.typing);
    for c in "  code ".chars() {
        app.handle_key(Key::Char(c));
    }
    match app.handle_key(Key::Enter) {
        Request::Search { term, .. } => assert_eq!(term, "code"),
        _ => panic!("se esperaba una busqueda"),
    }
    app.search_done(Ok(vec![Found { name: "code".into(), description: "editor".into() }]));
    assert_eq!(app.status, "1 resultados. Space para anadir, Enter vuelve al menu.");
    assert!(!app.typing);
    app.handle_key(Key::Char(' '));
    assert!(app.official.iter().any(|p| p.name == "code" && p.selected));
    assert!(app.search_results[0].selected);
    assert_eq!(app.status, "Anadido: code");
}

#[test]
fn invalid_setting_is_left_out_of_the_plan() {
    let mut app = new_app();
    app.sys_locale = "es MX".into();
    app.sys_hostname = " caja ".into();
    let plan = app.build_plan();
    assert!(plan.locale.is_none());
    assert_eq!(plan.hostname.as_deref(), Some("caja"));
    app.mode = Mode::System;
    app.typing = true;
    app.sys_cursor = 0;
    app.handle_text_submit();
    assert_eq!(app.status, "'es MX' no es un locale valido; se omitira al instalar.");
}

#[test]
fn review_helpers() {
    let off = vec!["vim".to_string()];
    let aur = vec!["yay".to_string()];
    assert_eq!(join_with_source(&off, &aur), "vim, yay (aur)");
    assert_eq!(join_with_source(&vec![], &vec![]), "(ninguno)");
    assert_eq!(lookup_de_label("kde"), "KDE Plasma (Wayland/X11)");
    assert_eq!(lookup_de_label("otro"), "otro");
    assert_eq!(truncate("abcdef", 4), "abc…");
    assert_eq!(truncate("abc", 4), "abc");
    let _ = InstallPlan::new(None, None, vec![], vec![]);
}

#[test]
fn review_services_split_by_state() {
    let mut sys = SystemStatus::empty();
    sys.enabled_services = vec!["NetworkManager.service".to_string()];
    let mut plan = InstallPlan::new(None, None, vec![], vec![]);
    plan.services = vec!["NetworkManager".to_string(), "sddm".to_string()];
    plan.user_services = vec!["pipewire".to_string()];
    let (todo, done) = review_services(&plan, &sys);
    assert_eq!(todo, vec!["sddm".to_string(), "audio (PipeWire, --user)".to_string()]);
    assert_eq!(done, vec!["NetworkManager".to_string()]);
    plan.user_services = vec![];
    let (todo, done) = review_services(&plan, &SystemStatus::empty());
    assert_eq!(todo, vec!["NetworkManager".to_string(), "sddm".to_string()]);
    assert!(done.is_empty());
}

#[test]
fn menu_has_its_entries_in_order() {
    let m = menu_labels();
    assert_eq!(m.len(), 11);
    assert_eq!(m[0], "Entorno de escritorio");
    assert_eq!(m[9], "Instalar ahora");
    assert_eq!(m[10], "Salir");
}

#[test]
fn picker_sets_only_its_field() {
    let mut app = new_app();
    app.mode = Mode::System;
    app.sys_timezone = "Europe/Madrid".into();
    app.open_picker(PickerTarget::Locale, vec!["es_MX.UTF-8".into(), "en_US.UTF-8".into()]);
    assert_eq!(app.mode, Mode::PickLocale);
    assert_eq!(app.picker.title, "Selecciona locale");
    app.handle_key(Key::Down);
    app.handle_key(Key::Enter);
    assert_eq!(app.sys_locale, "es_MX.UTF-8");
    assert_eq!(app.sys_timezone, "Europe/Madrid");
    assert_eq!(app.mode, Mode::System);
    assert_eq!(app.status, "Seleccionado: es_MX.UTF-8");
}

#[test]
fn picker_without_results_says_so() {
    let mut app = new_app();
    app.open_picker(PickerTarget::Keymap, vec!["la-latin1".into()]);
    for c in "zzz".chars() {
        app.handle_key(Key::Char(c));
    }
    app.handle_key(Key::Enter);
    assert_eq!(app.status, "No hay resultados. Esc para cancelar.");
    app.handle_key(Key::Esc);
    assert_eq!(app.mode, Mode::System);
    assert_eq!(app.status, "Picker cancelado.");
}

#[test]
fn empty_profile_list_is_reported() {
    let mut app = new_app();
    app.profiles_listed(vec![]);
    assert_eq!(app.mode, Mode::LoadProfile);
    assert_eq!(app.status, "No hay perfiles guardados.");
}

#[test]
fn main_menu_entries_explain_themselves() {
    let mut app = new_app();
    app.mode = Mode::Main;
    app.main_cursor = 1;
    app.handle_key(Key::Enter);
    assert_eq!(app.mode, Mode::Drivers);
    assert_eq!(app.status, "Marca tu GPU y el microcodigo de tu CPU.");
}

#[test]
fn counts_and_summaries() {
    let mut app = new_app();
    let sel = App::count_selected(&app.official);
    assert_eq!(sel, app.official.iter().filter(|p| p.selected).count());
    assert_eq!(app.count_drivers(), app.drivers.iter().filter(|d| **d).count());
    app.sys_locale = "es_MX.UTF-8".into();
    app.sys_multilib = true;
    app.sys_cleanup_orphans = true;
    assert_eq!(app.system_summary(), "locale, multilib, limpiar huerfanos");
    let mut sys = SystemStatus::empty();
    sys.official = vec!["vim".to_string()];
    let plan = InstallPlan::new(None, None, vec!["vim".into(), "git".into()], vec!["yay".into()]);
    assert_eq!(install_counts(&plan, &sys), (2, 1));
    assert_eq!(help_text(Mode::Welcome), "Enter: comenzar · q: salir");
    assert_eq!(help_text(Mode::Drivers), "↑/↓: mover · Space: marcar · q: volver al menu");
}

#[test]
fn matching_uses_the_given_lower_case_forms() {
    let options = vec!["es_MX.UTF-8".to_string(), "en_US.UTF-8".to_string()];
    let lowered = vec!["es_mx.utf-8".to_string(), "en_us.utf-8".to_string()];
    let hits = arch_postinstall::tui::matching_options(&options, &lowered, "mx");
    assert_eq!(hits, vec!["es_MX.UTF-8"]);
    assert!(arch_postinstall::tui::matching_options(&options, &lowered, "MX").is_empty());
}
