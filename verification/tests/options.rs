use arch_postinstall::options::{
    fallback_keymaps, fallback_locales, fallback_timezones, keymap_name, keymaps, locales,
    timezones, zoneinfo_skips,
};

#[test]
fn fallbacks_are_non_empty_and_sorted() {
    let l = fallback_locales();
    assert!(l.len() >= 5);
    assert!(l.windows(2).all(|w| w[0] <= w[1]));

    let t = fallback_timezones();
    assert!(t.len() >= 5);
    assert!(t.windows(2).all(|w| w[0] <= w[1]));

    let k = fallback_keymaps();
    assert!(k.len() >= 5);
    assert!(k.windows(2).all(|w| w[0] <= w[1]));
}

#[test]
fn lists_return_something_even_on_minimal_systems() {
    let l = locales(None);
    assert!(!l.is_empty());
    let t = timezones(None);
    assert!(!t.is_empty());
    let k = keymaps(None, None);
    assert!(!k.is_empty());
}

#[test]
fn locales_read_from_supported_file() {
    let body = "es_MX.UTF-8 UTF-8\nen_US.UTF-8 UTF-8\nes_MX.UTF-8 UTF-8\n\n";
    assert_eq!(locales(Some(body)), vec!["en_US.UTF-8", "es_MX.UTF-8"]);
    assert_eq!(locales(Some("\n  \n")), fallback_locales());
}

#[test]
fn timezones_sorted_without_repeats() {
    let found = vec!["Europe/Madrid".to_string(), "America/Lima".to_string(), "Europe/Madrid".to_string()];
    assert_eq!(timezones(Some(found)), vec!["America/Lima", "Europe/Madrid"]);
    assert_eq!(timezones(Some(vec![])), fallback_timezones());
}

#[test]
fn keymaps_prefer_localectl() {
    let out = "us\n  es \n\nde\n";
    assert_eq!(keymaps(Some(out), Some(vec!["fr".to_string()])), vec!["de", "es", "us"]);
    assert_eq!(keymaps(Some("\n"), Some(vec!["fr".to_string(), "fr".to_string()])), vec!["fr"]);
    assert_eq!(keymaps(None, Some(vec![])), fallback_keymaps());
}

#[test]
fn keymap_names_lose_their_endings() {
    assert_eq!(keymap_name("i386/qwerty/us.map.gz"), "i386/qwerty/us");
    assert_eq!(keymap_name("x.kmap"), "x");
    assert_eq!(keymap_name("a.gz.gz"), "a");
    assert_eq!(keymap_name("plain"), "plain");
}

#[test]
fn zoneinfo_walk_skips_non_zones() {
    assert!(zoneinfo_skips("posix", true));
    assert!(zoneinfo_skips("right", false));
    assert!(zoneinfo_skips("zone.tab", false));
    assert!(zoneinfo_skips(".hidden", false));
    assert!(!zoneinfo_skips("Europe", true));
    assert!(!zoneinfo_skips("Madrid", false));
    assert!(!zoneinfo_skips(".dir", true));
}
