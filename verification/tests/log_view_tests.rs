use benchhub::export::{history_csv_file_name, runs_to_compare};
use benchhub::i18n::{t, I18n};
use benchhub::logging::{
    console_tail_text, count_newline_bytes, log_candidates, log_read_error_text, log_view_text,
    tail_next_chunk, LOG_VIEW_LIMIT, TAIL_CHUNK_BYTES, TAIL_MAX_BYTES,
};

fn dictionaries() -> I18n {
    I18n::load().expect("the dictionaries are tables of strings")
}

#[test]
fn log_view_shows_the_tail() {
    let i18n = dictionaries();
    assert_eq!(log_view_text(&i18n, b""), t(&i18n, "log_file_empty"));
    assert_eq!(log_view_text(&i18n, "skor: 42 ✓\n".as_bytes()), "skor: 42 ✓\n");
    assert_eq!(log_view_text(&i18n, &[b'a', 0xff, b'b']), "a\u{fffd}b");

    let mut big = vec![b'x'; LOG_VIEW_LIMIT];
    big.extend_from_slice(b"END");
    let shown = log_view_text(&i18n, &big);
    assert_eq!(shown.len(), LOG_VIEW_LIMIT);
    assert!(shown.ends_with("xEND"));
}

#[test]
fn log_locations_in_order() {
    assert!(log_candidates("/d/logs", "").is_empty());
    assert_eq!(
        log_candidates("/d/logs", "/old/place/1_fio.log"),
        vec!["/old/place/1_fio.log".to_string(), "/d/logs/1_fio.log".to_string()]
    );
    assert_eq!(log_candidates("/d/logs", "/"), vec!["/".to_string()]);
    let i18n = dictionaries();
    assert_eq!(
        log_read_error_text(&i18n, "denied", "/d/logs/x.log"),
        format!("{} denied\n{}: /d/logs/x.log", t(&i18n, "log_file_read_error"), t(&i18n, "file"))
    );
}

#[test]
fn export_names_and_selection() {
    assert_eq!(history_csv_file_name(1700000000), "benchhub_history_1700000000.csv");
    assert_eq!(history_csv_file_name(-5), "benchhub_history_-5.csv");
    assert_eq!(runs_to_compare(&[10, 11, 12, 13], &[13, 10]), vec![0, 3]);
    assert!(runs_to_compare(&[1, 2], &[]).is_empty());
}

#[test]
fn console_tail_reading() {
    assert_eq!(tail_next_chunk(100, 0, 0, 10), Some(100));
    assert_eq!(tail_next_chunk(1_000_000, 3, 0, 10), Some(TAIL_CHUNK_BYTES));
    assert_eq!(tail_next_chunk(0, 0, 0, 10), None);
    assert_eq!(tail_next_chunk(500, 11, 0, 10), None);
    assert_eq!(tail_next_chunk(500, 10, 0, 10), Some(500));
    assert_eq!(tail_next_chunk(500, 0, TAIL_MAX_BYTES, 10), None);
    assert_eq!(count_newline_bytes(b"a\nb\n\nc"), 3);
    assert_eq!(count_newline_bytes(b""), 0);
    assert_eq!(console_tail_text(b"one\ntwo\r\nthree\tx\nfour", 2), "two\nthree    x\nfour");
    assert_eq!(console_tail_text(b"one\ntwo\nthree\n", 1), "three\n");
    assert_eq!(console_tail_text(b"\x1b[31mred\x1b[0m\n", 5), "red\n");
}
