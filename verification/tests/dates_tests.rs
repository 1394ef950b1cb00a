use benchhub::dates::{compare_date_text, date_text_or, full_date_text, history_date_text};

#[test]
fn dates_of_known_instants() {
    assert_eq!(history_date_text(0), "01-01 00:00");
    assert_eq!(compare_date_text(0), "1970-01-01 00:00");
    assert_eq!(full_date_text(1431648000), "2015-05-15 00:00:00");
    assert_eq!(full_date_text(-1), "1969-12-31 23:59:59");
    assert_eq!(history_date_text(1700000000), "11-14 22:13");
}

#[test]
fn instants_out_of_range_use_the_fallback() {
    assert_eq!(history_date_text(i64::MAX), "-");
    assert_eq!(compare_date_text(i64::MIN), "");
    assert_eq!(full_date_text(i64::MAX), "-");
}

#[test]
fn fallback_only_without_a_date() {
    assert_eq!(date_text_or(Some("2020-01-01".to_string()), "-"), "2020-01-01");
    assert_eq!(date_text_or(None, "-"), "-");
}
