use arch_postinstall::estimate::{
    count_parsed_names, estimate, human_bytes, pacman_si_blocks, parse_df_free, pending_packages,
    sum_sizes, PackageSizes, PlanEstimate, GIB, KIB, MIB,
};

#[test]
fn count_parsed_names_counts_blocks_with_name() {
    let stdout = "\
Name            : a
Download Size   : 1.00 MiB
Installed Size  : 2.00 MiB

Name            : b
Download Size   : 3.00 MiB
Installed Size  : 4.00 MiB

Name            : c
Description     : raro
";
    assert_eq!(count_parsed_names(stdout), 3);
}

#[test]
fn human_bytes_format() {
    assert_eq!(human_bytes(0), "0 B");
    assert_eq!(human_bytes(500), "500 B");
    assert_eq!(human_bytes(2 * 1024 * 1024), "2 MB");
    assert_eq!(human_bytes(5 * 1024 * 1024 * 1024), "5.0 GB");
    assert_eq!(human_bytes(1500), "1 KB");
}

#[test]
fn human_bytes_matches_float_formatting() {
    let samples: [u64; 12] = [
        1024,
        1536,
        2560,
        3 * MIB / 2,
        5 * MIB / 2,
        7 * MIB / 2,
        GIB,
        GIB + GIB / 20,
        GIB + 3 * GIB / 20,
        123_456_789_012,
        u64::MAX / 3,
        u64::MAX,
    ];
    for b in samples {
        let expected = if b >= GIB {
            format!("{:.1} GB", b as f64 / GIB as f64)
        } else if b >= MIB {
            format!("{:.0} MB", b as f64 / MIB as f64)
        } else if b >= KIB {
            format!("{:.0} KB", b as f64 / KIB as f64)
        } else {
            format!("{b} B")
        };
        assert_eq!(human_bytes(b), expected, "para {b} bytes");
    }
}

#[test]
fn empty_inputs_yield_empty_estimate() {
    let e = estimate(&[], &[], &[], &[], None, None);
    assert_eq!(e.official, PackageSizes::default());
    assert_eq!(e.aur, PackageSizes::default());
}

#[test]
fn estimate_skips_already_installed() {
    let already = vec!["vim".to_string()];
    let e = estimate(&["vim".to_string(), "firefox".to_string()], &[], &already, &[], None, None);
    assert!(
        e.official.download_bytes > 0 || e.official.unknown > 0,
        "el filtro de ya-instalados no deberia impedir la estimacion"
    );
    assert_eq!(e.official.unknown, 1);
    let _ = e.free_bytes;
}

#[test]
fn fits_logic() {
    let e = PlanEstimate {
        official: PackageSizes { install_bytes: 2 * GIB, ..Default::default() },
        aur: PackageSizes::default(),
        free_bytes: Some(3 * GIB),
    };
    assert_eq!(e.fits(), Some(true));
    let e = PlanEstimate {
        official: PackageSizes { install_bytes: 5 * GIB, ..Default::default() },
        free_bytes: Some(3 * GIB),
        ..Default::default()
    };
    assert_eq!(e.fits(), Some(false));
    let e = PlanEstimate {
        official: PackageSizes { install_bytes: 1, ..Default::default() },
        free_bytes: None,
        ..Default::default()
    };
    assert_eq!(e.fits(), None);
}

#[test]
fn estimate_counts_packages_without_size() {
    let stdout = "Name            : firefox\nDownload Size   : 1.00 MiB\n";
    let parsed = PackageSizes { download_bytes: MIB, install_bytes: 2 * MIB, unknown: 0 };
    let e = estimate(
        &["firefox".to_string(), "vlc".to_string()],
        &["yay-bin".to_string()],
        &[],
        &[],
        Some((stdout, parsed)),
        Some(10 * GIB),
    );
    assert_eq!(e.official.download_bytes, MIB);
    assert_eq!(e.official.install_bytes, 2 * MIB);
    assert_eq!(e.official.unknown, 1);
    assert_eq!(e.aur.unknown, 1);
    assert_eq!(e.total_install(), 2 * MIB);
    assert_eq!(e.total_unknown(), 2);
    assert_eq!(e.fits(), Some(true));
}

#[test]
fn pacman_si_blocks_keep_size_fields() {
    let stdout = "Name : a\nDownload Size   : 1.00 MiB\nInstalled Size  : 2.00 MiB\n\nName : b\n";
    let blocks = pacman_si_blocks(stdout);
    assert_eq!(blocks.len(), 2);
    assert_eq!(blocks[0].download.as_deref(), Some("1.00 MiB"));
    assert_eq!(blocks[0].installed.as_deref(), Some("2.00 MiB"));
    assert_eq!(blocks[1].download, None);
}

#[test]
fn sizes_add_up() {
    let s = sum_sizes(&[(Some(1), Some(2)), (None, Some(5)), (Some(3), Some(4))]);
    assert_eq!(s.download_bytes, 4);
    assert_eq!(s.install_bytes, 6);
    assert_eq!(s.unknown, 0);
}

#[test]
fn df_free_reads_fourth_column() {
    let out = "Filesystem 1B-blocks Used Available Use% Mounted on\n/dev/sda2 100 40 60 40% /\n";
    assert_eq!(parse_df_free(out), Some(60));
    assert_eq!(parse_df_free("solo una linea\n"), None);
}

#[test]
fn pending_skips_installed_of_both_sources() {
    let list = vec!["a".to_string(), "b".to_string(), "c".to_string()];
    let r = pending_packages(&list, &["a".to_string()], &["c".to_string()]);
    assert_eq!(r, vec!["b".to_string()]);
}

#[test]
fn parse_pacman_si_handles_missing_size() {
    let stdout = "\
Name            : weird
Description     : sin tamano
";
    let blocks = pacman_si_blocks(stdout);
    assert_eq!(blocks.len(), 1);
    assert_eq!(blocks[0].download, None);
    assert_eq!(blocks[0].installed, None);
    let s = sum_sizes(&[(None, None)]);
    assert_eq!(s.download_bytes, 0);
    assert_eq!(s.install_bytes, 0);
    assert_eq!(s.unknown, 0);
}
