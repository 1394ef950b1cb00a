use benchhub::bench_config::BenchmarkCustomConfig;
use benchhub::i18n::{localize_status, set_language, t, I18n};
use benchhub::runs::{
    engine_timeout_notice, finish_message, launch_line, launch_line_from, run_allows_next,
    run_banner, stored_run_settings, time_limit_notice, RunAction, RunEvent, RunMonitor,
    STOPPED_BY_USER_NOTICE,
};

fn dictionaries() -> I18n {
    I18n::load().expect("the dictionaries are tables of strings")
}

#[test]
fn monitor_stops_on_user_signal() {
    let mut m = RunMonitor::new();
    assert_eq!(m.on_event(RunEvent::Line(false)), RunAction::Continue);
    assert_eq!(m.on_event(RunEvent::StopSignal(false)), RunAction::Continue);
    assert_eq!(m.on_event(RunEvent::Line(true)), RunAction::Continue);
    assert_eq!(m.on_event(RunEvent::StopSignal(true)), RunAction::KillStopped);
    assert!(m.done && m.stopped_by_user && m.scored);
    assert!(!m.needs_final_wait());
    assert_eq!(m.exit_code(Some(3)), None);
    assert_eq!(m.status(Some(0)), "Stopped");
}

#[test]
fn monitor_time_limit_and_exit() {
    let mut m = RunMonitor::new();
    assert_eq!(m.on_event(RunEvent::TimeLimit), RunAction::KillTimedOut);
    assert!(m.timed_out && m.done);
    assert!(m.needs_final_wait());
    assert_eq!(m.status(Some(137)), "Timeout");

    let mut m = RunMonitor::new();
    assert_eq!(m.on_event(RunEvent::Exited(Some(0))), RunAction::Continue);
    assert_eq!(m.on_event(RunEvent::Exited(Some(5))), RunAction::Continue);
    assert_eq!(m.exit, Some(Some(0)));
    assert_eq!(m.on_event(RunEvent::Drained(true)), RunAction::Finish);
    assert!(!m.needs_final_wait());
    assert_eq!(m.exit_code(Some(9)), Some(0));
    assert_eq!(m.status(None), "Success");

    let mut m = RunMonitor::new();
    assert_eq!(m.on_event(RunEvent::OutputClosed), RunAction::Finish);
    assert!(m.needs_final_wait());
    assert_eq!(m.exit_code(Some(2)), Some(2));
    assert_eq!(m.status(Some(2)), "Completed (Log Saved)");
    assert_eq!(m.status(Some(0)), "Completed");
}

#[test]
fn stored_settings_for_a_run() {
    let cfg = BenchmarkCustomConfig {
        benchmark_id: "fio".to_string(),
        effective_run_args: Some(vec!["--bs=4k".to_string()]),
        custom_preset_name: Some("Rand-Read".to_string()),
        timeout_secs: Some(60),
        ..Default::default()
    };
    let (args, preset, limit) = stored_run_settings(Some(&cfg), "3.38");
    assert_eq!(args, Some(vec!["--bs=4k".to_string()]));
    assert_eq!(preset, "Rand-Read");
    assert_eq!(limit, Some(60));
    let bare = BenchmarkCustomConfig::default();
    let (args, preset, limit) = stored_run_settings(Some(&bare), "3.38");
    assert_eq!(args, None);
    assert_eq!(preset, "3.38");
    assert_eq!(limit, None);
    let (args, preset, limit) = stored_run_settings(None, "");
    assert_eq!((args, preset.as_str(), limit), (None, "", None));
}

#[test]
fn queue_stops_after_stopped_runs() {
    assert!(!run_allows_next("Durduruldu"));
    assert!(!run_allows_next("İptal Edildi"));
    assert!(run_allows_next("Stopped"));
    assert!(run_allows_next("Hata"));
}

#[test]
fn messages_of_a_run() {
    let mut i18n = dictionaries();
    assert_eq!(
        finish_message(&i18n, "Durduruldu", true, None),
        t(&i18n, "status_test_stopped_recorded")
    );
    assert_eq!(
        finish_message(&i18n, "Durduruldu", false, Some("9")),
        t(&i18n, "status_test_stopped_not_recorded")
    );
    assert_eq!(
        finish_message(&i18n, "Success", true, Some("1234.5")),
        "Test tamamlandı. Skor: 1234.5"
    );
    set_language(&mut i18n, "en");
    assert_eq!(
        finish_message(&i18n, "Success", true, Some("42")),
        "Test completed. Score: 42"
    );
    assert_eq!(
        finish_message(&i18n, "Hata", true, None),
        t(&i18n, "status_test_completed_no_score").replace("{}", &localize_status(&i18n, "Hata"))
    );
    assert_eq!(run_banner("7-Zip"), "=== [BenchHub] Test: 7-Zip ===\n");
    assert_eq!(
        time_limit_notice(300),
        "\n[BenchHub] ⏱️ Test belirlenen maksimum süreyi (300 sn) aştı ve zaman aşımı korumasıyla durduruldu.\n"
    );
    assert_eq!(
        engine_timeout_notice(Some(20)),
        "\n[BenchHub] ⏱ Timeout: Benchmark exceeded maximum duration (20 s) and was terminated.\n"
    );
    assert_eq!(
        engine_timeout_notice(None),
        "\n[BenchHub] ⏱ Timeout: Benchmark exceeded maximum duration (0 s) and was terminated.\n"
    );
    assert_eq!(STOPPED_BY_USER_NOTICE, "\n[BenchHub] ⏹ Benchmark stopped by user.\n");
    assert_eq!(
        launch_line(&i18n, "./7zz", &vec!["b".to_string(), "-mmt=4".to_string()], "/r/7zip"),
        "[BenchHub] Running: ./7zz [\"b\", \"-mmt=4\"] (Directory: /r/7zip)\n"
    );
    set_language(&mut i18n, "tr");
    assert_eq!(
        launch_line(&i18n, "./fio", &vec![], "/r"),
        "[BenchHub] Çalıştırılıyor: ./fio [] (Dizin: /r)\n"
    );
    assert_eq!(
        launch_line_from(true, "a", "[]", "d"),
        "[BenchHub] Running: a [] (Directory: d)\n"
    );
}
