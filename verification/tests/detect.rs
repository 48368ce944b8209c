use arch_postinstall::detect::{
    detect_bootloader, multilib_enabled_in, parse_hostname_from, parse_keymap_from,
    parse_locale_from, Bootloader, PackageStatus, ServiceStatus, SystemProbe, SystemStatus,
};
use arch_postinstall::model::Source;

#[test]
fn multilib_detected_when_uncommented() {
    let body = "\
[options]
HoldPkg = pacman

#[multilib]
#Include = /etc/pacman.d/mirrorlist

[core]
Include = /etc/pacman.d/mirrorlist

[multilib]
Include = /etc/pacman.d/mirrorlist
";
    assert!(multilib_enabled_in(body));
    assert!(!multilib_enabled_in("#[multilib]\n#Include = /etc/pacman.d/mirrorlist\n"));
}

#[test]
fn locale_parsed_from_locale_conf() {
    let body = "LANG=es_MX.UTF-8\nLC_COLLATE=C\n";
    assert_eq!(parse_locale_from(body).as_deref(), Some("es_MX.UTF-8"));
    assert_eq!(parse_locale_from("LANG=C\n").as_deref(), None);
    assert_eq!(parse_locale_from("# comentario\n").as_deref(), None);
}

#[test]
fn keymap_parsed_from_vconsole_conf() {
    let body = "KEYMAP=la-latin1\nFONT=lat2-16\n";
    assert_eq!(parse_keymap_from(body).as_deref(), Some("la-latin1"));
    assert_eq!(parse_keymap_from("FONT=lat2-16\n").as_deref(), None);
}

#[test]
fn hostname_parsed_from_file() {
    assert_eq!(parse_hostname_from("mi-arch\n").as_deref(), Some("mi-arch"));
    assert_eq!(parse_hostname_from("  \n").as_deref(), None);
}

#[test]
fn quoted_settings_are_unquoted() {
    assert_eq!(parse_locale_from("LANG=\"en_US.UTF-8\"\n").as_deref(), Some("en_US.UTF-8"));
    assert_eq!(parse_keymap_from("  KEYMAP='us'  \n").as_deref(), Some("us"));
}

#[test]
fn bootloader_prefers_grub() {
    assert_eq!(detect_bootloader(true, false, true, false), Bootloader::Grub);
    assert_eq!(detect_bootloader(false, false, false, true), Bootloader::SystemdBoot);
    assert_eq!(detect_bootloader(false, false, false, false), Bootloader::Unknown);
}

fn probe() -> SystemProbe {
    SystemProbe {
        installed: Some("firefox\nvim\nspotify\n".to_string()),
        foreign: Some("spotify\n".to_string()),
        upgradable: Some("vim 9.0-1 -> 9.1-1\n".to_string()),
        enabled_units: Some("NetworkManager.service enabled enabled\nsddm.service enabled enabled\n".to_string()),
        grub_cfg: false,
        default_grub: true,
        boot_loader_entries: false,
        efi_loader_entries: false,
        pacman_conf: Some("[multilib]\nInclude = /etc/pacman.d/mirrorlist\n".to_string()),
        locale_conf: Some("LANG=es_ES.UTF-8\n".to_string()),
        zoneinfo_target: Some("Europe/Madrid".to_string()),
        vconsole_conf: Some("KEYMAP=es\n".to_string()),
        hostname_file: Some("caja\n".to_string()),
    }
}

#[test]
fn status_built_from_probes() {
    let s = SystemStatus::detect(&probe());
    assert_eq!(s.aur, vec!["spotify".to_string()]);
    assert_eq!(s.official, vec!["firefox".to_string(), "vim".to_string()]);
    assert_eq!(s.updates_available, vec!["vim".to_string()]);
    assert_eq!(s.bootloader, Bootloader::Grub);
    assert!(s.multilib_enabled);
    assert_eq!(s.locale.as_deref(), Some("es_ES.UTF-8"));
    assert_eq!(s.keymap.as_deref(), Some("es"));
    assert_eq!(s.hostname.as_deref(), Some("caja"));
    assert_eq!(s.package_status("vim", Source::Official), PackageStatus::Installed);
    assert_eq!(s.package_status("vim", Source::Aur), PackageStatus::NotInstalled);
    assert_eq!(s.service_status("NetworkManager"), ServiceStatus::Enabled);
    assert_eq!(s.service_status("bluetooth"), ServiceStatus::Disabled);
}

#[test]
fn empty_status_knows_nothing() {
    let s = SystemStatus::empty();
    assert_eq!(s.package_status("vim", Source::Official), PackageStatus::Unknown);
    assert_eq!(s.service_status("sddm"), ServiceStatus::Unknown);
}

#[test]
fn package_lists_act_as_sets() {
    let mut p = probe();
    p.installed = Some("vim\n  \nfirefox\nvim\nspotify\n yay \n".to_string());
    p.foreign = Some("spotify\nyay\nspotify\n".to_string());
    p.upgradable = Some("vim 1 -> 2\nvim 1 -> 3\n".to_string());
    let s = SystemStatus::detect(&p);
    assert_eq!(s.official, vec!["firefox".to_string(), "vim".to_string()]);
    assert_eq!(s.aur, vec!["spotify".to_string(), "yay".to_string()]);
    assert_eq!(s.updates_available, vec!["vim".to_string()]);
    assert!(s.official.iter().all(|o| !s.aur.contains(o) && !o.is_empty()));
    p.installed = None;
    let none = SystemStatus::detect(&p);
    assert!(none.official.is_empty() && none.aur.is_empty());
}
