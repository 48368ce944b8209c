use arch_postinstall::profile::{profile_file_name, profile_names};

#[test]
fn file_name_keeps_safe_characters() {
    assert_eq!(profile_file_name("mi-setup_1"), "mi-setup_1.toml");
    assert_eq!(profile_file_name("mi setup/../x"), "mi-setup----x.toml");
    assert_eq!(profile_file_name("año"), "año.toml");
    assert!(!profile_file_name("../../etc/passwd").contains('/'));
}

#[test]
fn names_are_the_sorted_toml_stems() {
    let entries = vec![
        "zeta.toml".to_string(),
        "notas.txt".to_string(),
        "alfa.toml".to_string(),
        ".toml".to_string(),
    ];
    assert_eq!(profile_names(&entries), vec!["alfa".to_string(), "zeta".to_string()]);
}
