use benchhub::commands::{byte_unit, ByteUnit};
use benchhub::utils::{
    check_path_within, normalize_path, sanitize_filename, sanitize_identifier, strip_ansi_codes,
    InputError, PathError,
};

#[test]
fn test_sanitize_identifier_valid() {
    assert_eq!(sanitize_identifier("geekbench6").unwrap(), "geekbench6");
    assert_eq!(
        sanitize_identifier("unigine_heaven").unwrap(),
        "unigine_heaven"
    );
    assert_eq!(
        sanitize_identifier("v1.2.3-beta_1+opt").unwrap(),
        "v1.2.3-beta_1+opt"
    );
    assert_eq!(sanitize_identifier("7zip").unwrap(), "7zip");
    assert_eq!(
        sanitize_identifier("Fast (stories260K)").unwrap(),
        "Fast (stories260K)"
    );
    assert_eq!(sanitize_identifier("4.2 (Stable)").unwrap(), "4.2 (Stable)");
    assert_eq!(
        sanitize_identifier("Latest Release").unwrap(),
        "Latest Release"
    );
}

#[test]
fn test_sanitize_identifier_rejects_traversal() {
    assert!(sanitize_identifier("../etc").is_err());
    assert!(sanitize_identifier("../../root").is_err());
    assert!(sanitize_identifier("foo/../bar").is_err());
    assert!(sanitize_identifier("..").is_err());
    assert!(sanitize_identifier(".").is_err());
}

#[test]
fn test_sanitize_identifier_rejects_slashes_and_null() {
    assert!(sanitize_identifier("/bin/sh").is_err());
    assert!(sanitize_identifier("foo/bar").is_err());
    assert!(sanitize_identifier("foo\\bar").is_err());
    assert!(sanitize_identifier("foo\0bar").is_err());
}

#[test]
fn test_sanitize_identifier_rejects_dangerous_chars() {
    assert!(sanitize_identifier("foo; rm -rf /").is_err());
    assert!(sanitize_identifier("foo && echo 1").is_err());
    assert!(sanitize_identifier("`calc`").is_err());
    assert!(sanitize_identifier("$HOME").is_err());
    assert!(sanitize_identifier("foo|bar").is_err());
    assert!(sanitize_identifier("foo\nbar").is_err());
}

#[test]
fn test_sanitize_filename_valid_and_invalid() {
    assert_eq!(
        sanitize_filename("benchhub_history.csv").unwrap(),
        "benchhub_history.csv"
    );
    assert_eq!(sanitize_filename("run_123.log").unwrap(), "run_123.log");

    assert!(sanitize_filename("../log.txt").is_err());
    assert!(sanitize_filename("/etc/passwd").is_err());
    assert!(sanitize_filename("log\0.txt").is_err());
    assert!(sanitize_filename("").is_err());
}

#[test]
fn test_strip_ansi_codes() {
    let colored = "\x1B[31mRed Text\x1B[0m \x1B[1mBold\x1B[m";
    assert_eq!(strip_ansi_codes(colored), "Red Text Bold");
}

#[test]
fn identifier_errors_name_the_rule() {
    assert_eq!(sanitize_identifier(""), Err(InputError::Empty));
    assert_eq!(sanitize_identifier("a\0b"), Err(InputError::NullByte));
    assert_eq!(sanitize_identifier("a/b"), Err(InputError::PathSeparator));
    assert_eq!(sanitize_identifier("a..b"), Err(InputError::PathTraversal));
    assert_eq!(sanitize_identifier("a\tb"), Err(InputError::ControlCharacter('\t')));
    assert_eq!(sanitize_identifier("a;b"), Err(InputError::ForbiddenCharacter(';')));
    assert_eq!(sanitize_identifier("Çalışma"), Err(InputError::ForbiddenCharacter('Ç')));
}

#[test]
fn filename_is_trimmed_and_may_hold_symbols() {
    assert_eq!(sanitize_filename("  report (1).csv  ").unwrap(), "report (1).csv");
    assert_eq!(sanitize_filename("a;b.txt").unwrap(), "a;b.txt");
    assert_eq!(sanitize_filename("   "), Err(InputError::Empty));
    assert_eq!(sanitize_filename("a\u{7}b"), Err(InputError::ControlCharacter('\u{7}')));
}

#[test]
fn normalize_resolves_dots_lexically() {
    assert_eq!(normalize_path("/home/user/benchhub/runners/../logs"), "/home/user/benchhub/logs");
    assert_eq!(
        normalize_path("/home/user/benchhub/./runners/./7zip"),
        "/home/user/benchhub/runners/7zip"
    );
    assert_eq!(normalize_path("/a/b/c/../../d"), "/a/d");
    assert_eq!(normalize_path("/../x"), "/x");
    assert_eq!(normalize_path("../x/../../y"), "../../y");
    assert_eq!(normalize_path("a//b/"), "a/b");
}

#[test]
fn path_within_accepts_strict_subpaths() {
    let base = "/var/data/benchhub/runners";
    assert_eq!(
        check_path_within(base, "/var/data/benchhub/runners/geekbench"),
        Ok("/var/data/benchhub/runners/geekbench".to_string())
    );
    assert_eq!(
        check_path_within(base, "/var/data/benchhub/runners/7zip/./1.0/extracted"),
        Ok("/var/data/benchhub/runners/7zip/1.0/extracted".to_string())
    );
}

#[test]
fn path_within_rejects_escape_and_identity() {
    let base = "/var/data/benchhub/runners";
    assert_eq!(check_path_within(base, base), Err(PathError::SameAsBase));
    assert_eq!(
        check_path_within(base, "/var/data/benchhub/runners/../logs"),
        Err(PathError::OutsideBase)
    );
    assert_eq!(
        check_path_within(base, "/var/data/benchhub/runners/../../../../etc/passwd"),
        Err(PathError::OutsideBase)
    );
    assert_eq!(check_path_within(base, "runners/x"), Err(PathError::OutsideBase));
    assert_eq!(
        check_path_within(base, "/var/data/benchhub/runners-evil/x"),
        Err(PathError::OutsideBase)
    );
}

#[test]
fn plain_text_passes_stripping_unchanged() {
    let plain = "Score: 1234 [ok] (m; K)";
    assert_eq!(strip_ansi_codes(plain), plain);
    let mixed = "\x1b[1;32mPASS\x1b[0m \x1b[K\x1b[99";
    let out = strip_ansi_codes(mixed);
    assert_eq!(out, "PASS \x1b[99");
    assert!(out.len() <= mixed.len());
    assert!(out.chars().all(|c| mixed.contains(c)));
}

#[test]
fn test_ensure_path_within_valid() {
    let base = "/tmp/benchhub/runners";
    let target = "/tmp/benchhub/runners/geekbench6/1.0";
    let resolved = check_path_within(base, target).unwrap();
    assert_eq!(resolved, "/tmp/benchhub/runners/geekbench6/1.0");
}

#[test]
fn test_ensure_path_within_rejects_traversal() {
    let base = "/tmp/benchhub/runners";
    let target = "/tmp/benchhub/runners/../../etc/passwd";
    assert!(check_path_within(base, target).is_err());

    let target_same = "/tmp/benchhub/runners";
    assert!(check_path_within(base, target_same).is_err());
}

#[test]
fn test_ensure_path_within_valid_subpaths() {
    let base = "/var/data/benchhub/runners";
    let target1 = "/var/data/benchhub/runners/geekbench";
    let target2 = "/var/data/benchhub/runners/7zip/1.0/extracted";

    assert!(check_path_within(base, target1).is_ok());
    assert!(check_path_within(base, target2).is_ok());
}

#[test]
fn test_ensure_path_within_rejects_escape_and_identity() {
    let base = "/var/data/benchhub/runners";

    // Identical path
    assert!(check_path_within(base, base).is_err());

    // Parent escape
    assert!(check_path_within(base, "/var/data/benchhub/runners/../logs").is_err());

    // Root escape
    assert!(check_path_within(base, "/var/data/benchhub/runners/../../../../etc/passwd").is_err());

    // Relative escape, resolved against the base as the caller does
    assert!(check_path_within(base, "/var/data/benchhub/runners/../runners").is_err());
    assert!(check_path_within(base, "../runners").is_err());
}

#[test]
fn identifiers_are_ascii_names() {
    assert!(sanitize_identifier("[]").is_err());
    assert!(sanitize_identifier("bench[1]").is_err());
    assert!(sanitize_identifier("işlemci").is_err());
    assert_eq!(sanitize_identifier("geekbench6").unwrap(), "geekbench6");
    assert_eq!(sanitize_identifier("Fast (stories260K)").unwrap(), "Fast (stories260K)");
}

#[test]
fn byte_units_by_threshold() {
    assert_eq!(byte_unit(1023), ByteUnit::Bytes);
    assert_eq!(byte_unit(1024), ByteUnit::Kilobytes);
    assert_eq!(byte_unit(5 * 1024 * 1024), ByteUnit::Megabytes);
    assert_eq!(byte_unit(3 * 1024 * 1024 * 1024), ByteUnit::Gigabytes);
    assert_eq!(ByteUnit::Megabytes.divisor(), 1048576);
    assert_eq!(ByteUnit::Gigabytes.label(), "GB");
}

#[test]
fn score_groups_per_line() {
    let out = "Result: \x1b[32m1234.5\x1b[0m points\nnothing here\nResult: 99";
    let g = benchhub::utils::score_groups(r"Result:\s*([0-9.]+)", out);
    assert_eq!(g.len(), 3);
    assert_eq!(g[0], Some(vec![Some("1234.5".to_string())]));
    assert_eq!(g[1], None);
    assert_eq!(g[2], Some(vec![Some("99".to_string())]));
    assert_eq!(benchhub::utils::line_score_groups("(a)|(b)", "b"), Some(vec![None, Some("b".to_string())]));
    assert_eq!(benchhub::utils::score_groups("(", "x"), vec![None]);
}
