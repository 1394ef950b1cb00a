use benchhub::discovery::{
    needs_exec_permission,
    best_candidate, candidate_score, direct_candidate_paths, executable_for, file_name,
    is_elf_or_script_header, is_skipped_candidate, listing_entry, not_found_message, search_terms,
    system_command_name,
};

#[test]
fn file_names_follow_path_components() {
    assert_eq!(file_name("a/b/run.sh"), Some("run.sh".to_string()));
    assert_eq!(file_name("a/b/"), Some("b".to_string()));
    assert_eq!(file_name("a/b/."), Some("b".to_string()));
    assert_eq!(file_name("a/.."), None);
    assert_eq!(file_name("/"), None);
    assert_eq!(file_name(""), None);
    assert_eq!(file_name("."), None);
    assert_eq!(file_name("tool"), Some("tool".to_string()));
}

#[test]
fn direct_candidates_in_order() {
    let c = direct_candidate_paths("/r", &Some("bin/x64/heaven".to_string()), "./heaven.sh");
    assert_eq!(
        c,
        vec![
            "/r/bin/x64/heaven",
            "/r/extracted/heaven",
            "/r/heaven",
            "/r/heaven.sh",
            "/r/extracted/heaven.sh",
            "/r/heaven.sh",
        ]
    );
    let none = direct_candidate_paths("/r", &None, "");
    assert!(none.is_empty());
    let dotted = direct_candidate_paths("/r", &None, "././7zz");
    assert_eq!(dotted[0], "/r/7zz");
}

#[test]
fn archives_are_skipped_and_system_commands_found() {
    assert!(is_skipped_candidate("/r/Unigine_Heaven-4.0.run"));
    assert!(is_skipped_candidate("/r/setup.sh"));
    assert!(!is_skipped_candidate("/r/heaven"));
    assert_eq!(system_command_name("./sleep"), Some("sleep".to_string()));
    assert_eq!(system_command_name("bin/tool"), None);
    assert_eq!(system_command_name("pkg.tar.gz"), None);
    assert_eq!(system_command_name(""), None);
}

#[test]
fn search_terms_from_profile() {
    let terms = search_terms(
        "unigine_superposition",
        "Unigine Superposition Benchmark",
        &Some("bin/superposition".to_string()),
        "./Superposition",
    );
    assert_eq!(
        terms,
        vec![
            "superposition",
            "superposition",
            "unigine_superposition",
            "unigine",
            "superposition",
            "unigine",
            "superposition",
            "benchmark",
        ]
    );
    let short = search_terms("7zip", "7-Zip", &None, "");
    assert_eq!(short, vec!["7zip", "7zip", "7-zip"]);
}

#[test]
fn found_files_are_scored() {
    let terms = vec!["heaven".to_string(), "unigine".to_string()];
    assert_eq!(candidate_score("heaven", "/r/heaven", &terms, true), Some(100));
    assert_eq!(candidate_score("heaven.sh", "/r/heaven.sh", &terms, false), Some(100));
    assert_eq!(candidate_score("heaven_x64", "/r/extracted/bin/heaven_x64", &terms, true), Some(85));
    assert_eq!(candidate_score("run_heaven_now", "/r/run_heaven_now", &terms, true), Some(60));
    assert_eq!(candidate_score("other", "/r/extracted/other", &terms, true), Some(20));
    assert_eq!(candidate_score("other", "/r/other", &terms, true), None);
    assert_eq!(candidate_score("heaven", "/r/heaven", &terms, false), None);
    assert_eq!(candidate_score("heaven-installer.sh", "/r/heaven-installer.sh", &terms, true), None);
}

#[test]
fn best_candidate_prefers_score_then_depth_then_order() {
    assert_eq!(best_candidate(&vec![]), None);
    assert_eq!(best_candidate(&vec![(60, 0), (100, 3), (100, 1), (100, 1)]), Some(2));
    assert_eq!(best_candidate(&vec![(80, 2)]), Some(0));
}

#[test]
fn resolved_executable_parts() {
    let r = executable_for("/r", "/r/extracted/bin/heaven", "");
    assert_eq!(r.work_dir, "/r/extracted/bin");
    assert_eq!(r.executable, "./heaven");
    assert_eq!(r.full_path, "/r/extracted/bin/heaven");
    let top = executable_for("/r", "/tool", "run");
    assert_eq!(top.work_dir, "/");
    assert_eq!(top.executable, "./tool");
    let root = executable_for("/r", "/", "run");
    assert_eq!(root.work_dir, "/r");
    assert_eq!(root.executable, "./run");
}

#[test]
fn diagnostics_message_lists_contents() {
    assert_eq!(listing_entry("bin", None), "bin/ (dizin)");
    assert_eq!(listing_entry("bin/run", Some(1234)), "bin/run (1234 bayt)");
    let empty = not_found_message("Heaven", "unigine_heaven", "/r", &vec![]);
    assert_eq!(
        empty,
        "Çalıştırılabilir dosya bulunamadı!\nAranan profil: Heaven (id: unigine_heaven)\nÇalıştırma dizini: /r\nMevcut Dizin İçeriği:\n  (Dizin tamamen boş)"
    );
    let listed = not_found_message("X", "x", "/r", &vec!["a/ (dizin)".to_string(), "a/b (3 bayt)".to_string()]);
    assert!(listed.ends_with("İçeriği:\n  - a/ (dizin)\n  - a/b (3 bayt)"));
}

#[test]
fn executable_headers() {
    assert!(is_elf_or_script_header(b"\x7fELF"));
    assert!(is_elf_or_script_header(b"#!/b"));
    assert!(!is_elf_or_script_header(b"#!"));
    assert!(!is_elf_or_script_header(b"MZ\x90\x00"));
}

#[test]
fn executable_permission_rules() {
    assert!(needs_exec_permission("/r/x/run.sh", b"abcd"));
    assert!(needs_exec_permission("/r/x/pkg.run", b""));
    assert!(needs_exec_permission("/r/x/heaven", b""));
    assert!(needs_exec_permission("/r/x/Superposition", b""));
    assert!(needs_exec_permission("/r/x/main", b""));
    assert!(needs_exec_permission("/r/x/tool", b"\x7fELF"));
    assert!(needs_exec_permission("/r/x/bin/data.txt", b"text"));
    assert!(needs_exec_permission("/r/x/extracted/readme", b"text"));
    assert!(!needs_exec_permission("/r/x/readme.txt", b"text"));
    assert!(!needs_exec_permission("/r/x/tool", b"\x7fEL"));
}

#[test]
fn test_missing_executable_diagnostics_message() {
    let contents = vec![
        listing_entry("extracted", None),
        listing_entry("extracted/data", None),
        listing_entry("extracted/data/textures.bin", Some(17)),
    ];
    let err = not_found_message("Dummy Benchmark", "dummy", "/tmp/runners/dummy/1.0", &contents);
    assert!(err.contains("Çalıştırılabilir dosya bulunamadı!"));
    assert!(err.contains("Mevcut Dizin İçeriği:"));
    assert!(err.contains("extracted/data/textures.bin"));
}
