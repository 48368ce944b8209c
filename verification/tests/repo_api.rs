use arch_postinstall::model::Source;
use arch_postinstall::repo_api::{search, search_url, url_encode, Found};

#[test]
fn url_encode_keeps_safe_chars() {
    assert_eq!(url_encode("visual-studio-code-bin"), "visual-studio-code-bin");
    assert_eq!(url_encode("python3.12_x"), "python3.12_x");
}

#[test]
fn url_encode_escapes_special_chars() {
    assert_eq!(url_encode("a b"), "a%20b");
    assert_eq!(url_encode("c++"), "c%2B%2B");
    assert_eq!(url_encode("ñoño"), "%C3%B1o%C3%B1o");
}

#[test]
fn search_urls_per_source() {
    assert_eq!(search_url(Source::Official, "vim x"), "https://archlinux.org/packages/search/json/?q=vim%20x");
    assert_eq!(search_url(Source::Aur, "yay"), "https://aur.archlinux.org/rpc/v5/search/yay?by=name-desc");
}

fn found(name: &str, desc: &str) -> Found {
    Found { name: name.to_string(), description: desc.to_string() }
}

#[test]
fn official_results_deduplicated_and_sorted() {
    let listed = vec![found("vim", "x86_64"), found("gvim", "g"), found("vim", "aarch64"), found("alpha", "a")];
    let r = search(Source::Official, Ok(listed)).unwrap();
    let names: Vec<&str> = r.iter().map(|f| f.name.as_str()).collect();
    assert_eq!(names, vec!["alpha", "gvim", "vim"]);
    assert_eq!(r[2].description, "x86_64");
}

#[test]
fn aur_results_sorted_stably_and_cut() {
    let mut listed = Vec::new();
    for i in 0..60 {
        listed.push(found(&format!("p{:02}", 59 - i), "d"));
    }
    listed.push(found("p00", "second"));
    let r = search(Source::Aur, Ok(listed)).unwrap();
    assert_eq!(r.len(), 50);
    assert_eq!(r[0].name, "p00");
    assert_eq!(r[0].description, "d");
    assert_eq!(r[1].name, "p00");
    assert_eq!(r[1].description, "second");
    assert!(r.windows(2).all(|w| w[0].name <= w[1].name));
}

#[test]
fn search_errors_pass_through() {
    let r = search(Source::Aur, Err("sin conexion".to_string()));
    assert_eq!(r.err().as_deref(), Some("sin conexion"));
}
