use benchhub::logging::TerminalFlusher;

#[test]
fn flusher_batches_file_writes() {
    let mut f = TerminalFlusher::new(3, "old\n");
    let e = f.on_append("a\n");
    assert!(e.write.is_none() && e.show.is_none() && !e.truncate_file);
    let e = f.on_tick();
    assert_eq!(e.write.as_deref(), Some("a\n"));
    assert_eq!(e.show.as_deref(), Some("old\na\n"));
    let e = f.on_tick();
    assert!(e.write.is_none() && e.show.is_none());

    let big = "x".repeat(9000);
    let e = f.on_append("b");
    assert!(e.write.is_none());
    let e = f.on_append(&big);
    assert_eq!(e.write, Some(format!("b{}", big)));
    let e = f.on_tick();
    assert!(e.write.is_none());
    assert!(e.show.is_some());
}

#[test]
fn flusher_clear_and_limit() {
    let mut f = TerminalFlusher::new(5, "");
    f.on_append("1\n2\n3\n");
    let e = f.on_clear();
    assert!(e.truncate_file);
    assert_eq!(e.show.as_deref(), Some(""));
    assert!(e.write.is_none());
    let e = f.on_tick();
    assert!(e.write.is_none() && e.show.is_none());

    f.on_append("a\nb\nc\n");
    let e = f.on_limit(2);
    assert!(e.write.is_none() && e.show.is_none());
    let e = f.on_tick();
    assert_eq!(e.write.as_deref(), Some("a\nb\nc\n"));
    assert_eq!(e.show.as_deref(), Some("b\nc\n"));
}
