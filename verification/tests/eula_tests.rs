use benchhub::eula::get_eula_for_benchmark;

#[test]
fn test_all_benchmarks_have_eula() {
    let benchmarks = [
        "7zip",
        "blender",
        "cray",
        "ffmpeg",
        "fio",
        "geekbench",
        "gravitymark",
        "llama-bench",
        "stream",
        "unigine",
        "ycruncher",
    ];
    for b in benchmarks {
        let eula = get_eula_for_benchmark(b);
        assert!(!eula.is_empty(), "EULA should not be empty for {}", b);
        assert!(
            eula.len() > 100,
            "EULA should contain detailed terms for {}",
            b
        );
    }
}

#[test]
fn unknown_benchmark_gets_standard_terms() {
    assert_eq!(
        get_eula_for_benchmark("something-else"),
        "Standard Benchmark End User License Agreement & Terms of Use."
    );
    assert_ne!(get_eula_for_benchmark("7zip"), get_eula_for_benchmark("blender"));
}
