use arch_postinstall::validate::{is_valid_hostname, is_valid_keymap, is_valid_locale, is_valid_timezone};

#[test]
fn hostname_accepts_valid() {
    assert!(is_valid_hostname("mi-arch"));
    assert!(is_valid_hostname("a"));
    assert!(is_valid_hostname("archlinux"));
    assert!(is_valid_hostname("a1b2c3"));
    assert!(is_valid_hostname("ABC-xyz-123"));
}

#[test]
fn hostname_rejects_invalid() {
    assert!(!is_valid_hostname(""));
    assert!(!is_valid_hostname("-foo"));
    assert!(!is_valid_hostname("foo-"));
    assert!(!is_valid_hostname("foo bar"));
    assert!(!is_valid_hostname("foo'; rm -rf /"));
    assert!(!is_valid_hostname("foo.bar"));
    assert!(!is_valid_hostname("ñ"));
    assert!(!is_valid_hostname(&"a".repeat(64)));
}

#[test]
fn locale_accepts_valid() {
    assert!(is_valid_locale("es_MX.UTF-8"));
    assert!(is_valid_locale("en_US"));
    assert!(is_valid_locale("C"));
    assert!(is_valid_locale("POSIX"));
}

#[test]
fn locale_rejects_invalid() {
    assert!(!is_valid_locale(""));
    assert!(!is_valid_locale("es MX"));
    assert!(!is_valid_locale("es'; rm -rf /"));
    assert!(!is_valid_locale("es|MX"));
}

#[test]
fn keymap_accepts_valid() {
    assert!(is_valid_keymap("la-latin1"));
    assert!(is_valid_keymap("es"));
    assert!(is_valid_keymap("us"));
}

#[test]
fn keymap_rejects_invalid() {
    assert!(!is_valid_keymap(""));
    assert!(!is_valid_keymap("es lat"));
    assert!(!is_valid_keymap("es'; rm"));
}

#[test]
fn timezone_accepts_valid() {
    assert!(is_valid_timezone("America/Mexico_City"));
    assert!(is_valid_timezone("Europe/Madrid"));
    assert!(is_valid_timezone("UTC"));
}

#[test]
fn timezone_rejects_invalid() {
    assert!(!is_valid_timezone(""));
    assert!(!is_valid_timezone("/America/Mexico_City"));
    assert!(!is_valid_timezone("America/Mexico_City/"));
    assert!(!is_valid_timezone("America//Mexico_City"));
    assert!(!is_valid_timezone("../../etc/passwd"));
    assert!(!is_valid_timezone("America Mexico City"));
    assert!(!is_valid_timezone("America; rm -rf /"));
}

#[test]
fn hostname_length_limit() {
    assert!(is_valid_hostname(&"a".repeat(63)));
}
