use benchhub::engine::{
    backup_dir, install_commands, install_log_line, install_source, installer_leftover,
    DownloadCommandError, InstallError, InstallSource,
};
use benchhub::i18n::{t, I18n};
use benchhub::models::BenchmarkProfile;
use std::path::Path;

#[test]
fn backup_dir_matches_with_extension() {
    for dir in [
        "/d/runners/geekbench/6.2.2",
        "/d/runners/fio",
        "/d/runners/.hidden",
        "/d/runners/a.b.c",
        "runners/x",
        "/d/runners/v.",
        "/",
        "",
        "/d/..",
    ] {
        let expected = Path::new(dir).with_extension("bak");
        assert_eq!(backup_dir(dir), expected.to_string_lossy(), "for {:?}", dir);
    }
    assert_eq!(backup_dir("/d/runners/geekbench/6.2.2"), "/d/runners/geekbench/6.2.bak");
}

fn profile(cmd: Option<&str>, url: Option<&str>, archive: Option<&str>) -> BenchmarkProfile {
    BenchmarkProfile {
        id: "x".to_string(),
        name: "X".to_string(),
        download_cmd: cmd.map(|s| s.to_string()),
        download_url: url.map(|s| s.to_string()),
        archive_type: archive.map(|s| s.to_string()),
        ..Default::default()
    }
}

#[test]
fn install_sources() {
    assert_eq!(
        install_source(&profile(Some("curl -LO https://x/y.tgz && tar xf y.tgz"), Some("https://ignored"), None)),
        Ok(InstallSource::Command("curl -LO https://x/y.tgz && tar xf y.tgz".to_string()))
    );
    assert_eq!(
        install_source(&profile(Some("sudo make install"), None, None)),
        Err(InstallError::UnsafeCommand(DownloadCommandError::PrivilegeEscalation("sudo")))
    );
    assert_eq!(
        install_source(&profile(None, Some("https://h/p/Unigine_Heaven-4.0.run?x=1/2"), None)),
        Ok(InstallSource::Download {
            url: "https://h/p/Unigine_Heaven-4.0.run?x=1/2".to_string(),
            file_name: "Unigine_Heaven-4.0.run".to_string(),
            self_extracting: false,
        })
    );
    assert_eq!(
        install_source(&profile(None, Some("https://h/p/pkg.run"), None)),
        Ok(InstallSource::Download {
            url: "https://h/p/pkg.run".to_string(),
            file_name: "pkg.run".to_string(),
            self_extracting: true,
        })
    );
    assert_eq!(
        install_source(&profile(None, Some("https://h/p/bin"), Some("run"))),
        Ok(InstallSource::Download {
            url: "https://h/p/bin".to_string(),
            file_name: "bin".to_string(),
            self_extracting: true,
        })
    );
    assert_eq!(install_source(&profile(None, Some("https://h/a b"), None)), Err(InstallError::InvalidUrl));
    assert_eq!(install_source(&profile(None, Some("https://h/x;rm"), None)), Err(InstallError::InvalidUrl));
    assert_eq!(install_source(&profile(None, Some("https://h/dir/"), None)), Err(InstallError::InvalidFileName));
    assert_eq!(install_source(&profile(None, Some("https://h/a\\b"), None)), Err(InstallError::InvalidFileName));
    assert_eq!(install_source(&profile(None, None, None)), Err(InstallError::NoSource));
}

#[test]
fn install_programs() {
    let calls = install_commands(&InstallSource::Command("make".to_string()), "/r/x");
    assert_eq!(calls, vec![("sh".to_string(), vec!["-c".to_string(), "make".to_string()])]);
    let calls = install_commands(
        &InstallSource::Download {
            url: "https://h/pkg.run".to_string(),
            file_name: "pkg.run".to_string(),
            self_extracting: true,
        },
        "/r/x",
    );
    let s = |v: &[&str]| v.iter().map(|x| x.to_string()).collect::<Vec<_>>();
    assert_eq!(
        calls,
        vec![
            ("wget".to_string(), s(&["-nv", "-c", "https://h/pkg.run", "-O", "pkg.run"])),
            ("chmod".to_string(), s(&["+x", "pkg.run"])),
            ("sh".to_string(), s(&["./pkg.run", "--accept", "--noexec", "--target", "/r/x/extracted"])),
        ]
    );
    let calls = install_commands(
        &InstallSource::Download {
            url: "https://h/a.tgz".to_string(),
            file_name: "a.tgz".to_string(),
            self_extracting: false,
        },
        "/r/x",
    );
    assert_eq!(calls.len(), 1);
}

#[test]
fn install_messages() {
    assert_eq!(
        InstallError::InvalidUrl.message("X", "https://h/a b", ""),
        "URL contains invalid characters: https://h/a b"
    );
    assert_eq!(
        InstallError::InvalidFileName.message("X", "u", ""),
        "Extracted filename from URL is invalid: "
    );
    assert_eq!(
        InstallError::NoSource.message("X", "", ""),
        "Installation command or download link not defined: X"
    );
    assert_eq!(
        InstallError::UnsafeCommand(DownloadCommandError::DangerousPattern("| sh")).message("X", "", ""),
        "Download command contains dangerous pattern: '| sh'"
    );
    assert_eq!(
        DownloadCommandError::ForbiddenPath("/etc/shadow").message(),
        "Download command references forbidden system path: '/etc/shadow'"
    );
    assert_eq!(DownloadCommandError::Empty.message(), "Download command cannot be empty");
    assert!(installer_leftover("pkg.run"));
    assert!(installer_leftover("pkg.run.download"));
    assert!(!installer_leftover("pkg.tgz"));
    let i18n = I18n::load().unwrap();
    assert_eq!(
        install_log_line(&i18n, "status_installing_log", "X"),
        format!("[BenchHub] {}: X\n", t(&i18n, "status_installing_log"))
    );
}
