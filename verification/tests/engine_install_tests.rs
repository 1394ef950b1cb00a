use benchhub::engine::{BenchmarkEngine, InstallProbe};

fn probe(version: bool, suffixed: bool, base: bool, subdir: Option<&str>) -> InstallProbe {
    InstallProbe {
        version_dir_marked: version,
        suffixed_dir_marked: suffixed,
        base_dir_marked: base,
        marked_subdir: subdir.map(|s| s.to_string()),
    }
}

#[test]
fn active_dir_of_a_named_version() {
    let e = BenchmarkEngine::new("/bh".to_string());
    let marked = probe(true, true, false, None);
    assert_eq!(
        e.get_active_runner_dir("geekbench", "6.2.2", &marked),
        Ok("/bh/runners/geekbench/6.2.2".to_string())
    );
    assert!(e.is_version_installed("geekbench", "6.2.2", &marked));

    let suffixed = probe(false, true, false, None);
    assert_eq!(
        e.get_active_runner_dir("geekbench", "6.2.2", &suffixed),
        Ok("/bh/runners/geekbench6".to_string())
    );
    assert!(e.is_version_installed("geekbench", "6.2.2", &suffixed));

    let nothing = probe(false, false, true, Some("/bh/runners/geekbench/x"));
    assert_eq!(
        e.get_active_runner_dir("geekbench", "6.2.2", &nothing),
        Ok("/bh/runners/geekbench/6.2.2".to_string())
    );
    assert!(!e.is_version_installed("geekbench", "6.2.2", &nothing));
}

#[test]
fn active_dir_without_a_version() {
    let e = BenchmarkEngine::new("/bh".to_string());
    let base = probe(false, false, true, None);
    assert_eq!(e.get_active_runner_dir("fio", "", &base), Ok("/bh/runners/fio".to_string()));
    assert!(e.is_version_installed("fio", "", &base));

    let sub = probe(false, false, false, Some("/bh/runners/fio/3.38"));
    assert_eq!(
        e.get_active_runner_dir("fio", "", &sub),
        Ok("/bh/runners/fio/3.38".to_string())
    );
    assert!(e.is_version_installed("fio", "", &sub));

    let none = probe(false, true, false, None);
    assert_eq!(e.get_active_runner_dir("fio", "", &none), Ok("/bh/runners/fio".to_string()));
    assert!(!e.is_version_installed("fio", "", &none));
}

#[test]
fn invalid_names_are_never_installed() {
    let e = BenchmarkEngine::new("/bh".to_string());
    let all = probe(true, true, true, Some("/bh/runners/x"));
    assert!(e.get_active_runner_dir("../x", "1", &all).is_err());
    assert!(!e.is_version_installed("../x", "1", &all));
    assert!(e.get_active_runner_dir("x", "a/b", &all).is_err());
    assert!(!e.is_version_installed("x", "a/b", &all));
}

#[test]
fn uninstall_targets_in_order() {
    let e = BenchmarkEngine::new("/bh".to_string());
    assert_eq!(
        e.uninstall_targets("geekbench", "6.2.2", false),
        vec!["/bh/runners/geekbench/6.2.2".to_string(), "/bh/runners/geekbench6".to_string()]
    );
    assert_eq!(
        e.uninstall_targets("geekbench", "6.2.2", true),
        vec![
            "/bh/runners/geekbench/6.2.2".to_string(),
            "/bh/runners/geekbench6".to_string(),
            "/bh/runners/geekbench".to_string(),
        ]
    );
    assert_eq!(
        e.uninstall_targets("fio", "", false),
        vec!["/bh/runners/fio".to_string(), "/bh/runners/fio".to_string()]
    );
    assert_eq!(
        e.safe_suffixed_runner_dir("geekbench", "6.2.2"),
        Some("/bh/runners/geekbench6".to_string())
    );
    assert!(e.uninstall_targets("../x", "", true).is_empty());
}
