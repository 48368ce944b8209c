use arch_postinstall::catalog::{desktop_environments, drivers, extra_packages};
use std::collections::HashSet;

#[test]
fn no_duplicate_extra_packages() {
    let mut seen = HashSet::new();
    for p in extra_packages() {
        assert!(seen.insert(p.name), "paquete duplicado en catalogo: {}", p.name);
    }
}

#[test]
fn desktop_environment_ids_are_unique() {
    let mut seen = HashSet::new();
    for de in desktop_environments() {
        assert!(seen.insert(de.id), "id de entorno duplicado: {}", de.id);
    }
}

#[test]
fn first_environment_is_none_option() {
    let envs = desktop_environments();
    assert_eq!(envs[0].id, "ninguno");
    assert!(envs[0].packages.is_empty());
    assert!(envs[0].display_manager.is_none());
}

#[test]
fn real_environments_have_display_manager() {
    for de in desktop_environments().iter().filter(|d| d.id != "ninguno") {
        assert!(de.display_manager.is_some(), "el entorno {} no tiene display manager", de.id);
        assert!(!de.packages.is_empty(), "el entorno {} no tiene paquetes", de.id);
    }
}

#[test]
fn driver_catalog_has_hardware_ids() {
    let ids: Vec<&str> = drivers().iter().map(|d| d.id).collect();
    for id in ["nvidia", "amd", "intel", "vm", "intel-ucode", "amd-ucode"] {
        assert!(ids.contains(&id), "falta el driver {id}");
    }
    assert!(drivers().iter().all(|d| !d.default_on));
}
