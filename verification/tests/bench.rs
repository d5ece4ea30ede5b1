use aether::bench::{generate_key, worker_of, BenchResult, Figures, Report};

fn result(start: u64, end: u64, err: Option<&str>) -> BenchResult {
    BenchResult { start, end, err: err.map(|e| e.to_string()) }
}

fn figures() -> Figures {
    let text = |s: &str| s.to_string();
    Figures {
        wall: text("10.00"),
        slowest: text("3.00"),
        fastest: text("1.00"),
        average: text("2.00"),
        stddev: text("0.82"),
        rps: text("300.00"),
        percentiles: [
            text("1.00"), text("1.10"), text("1.20"), text("1.30"), text("1.40"), text("1.50"), text("1.60"),
            text("1.70"),
        ],
    }
}

#[test]
fn sequential_keys_have_a_fixed_width() {
    assert_eq!(generate_key(7, 5, true), b"00070");
    assert_eq!(generate_key(1234, 5, true), b"12340");
    assert_eq!(generate_key(12345, 5, true), b"12345");
    assert_eq!(generate_key(123456, 5, true), b"12345");
    assert_eq!(generate_key(0, 1, true), b"0");
    assert_eq!(generate_key(9, 0, true), b"");
    let mut last = generate_key(0, 4, true);
    for i in 1..1000 {
        let key = generate_key(i, 4, true);
        assert!(last < key);
        last = key;
    }
}

#[test]
fn random_keys_have_their_size() {
    assert_eq!(generate_key(0, 32, false).len(), 32);
    assert_ne!(generate_key(0, 32, false), generate_key(0, 32, false));
}

#[test]
fn clients_take_turns() {
    let picked: Vec<usize> = (0..5).map(|i| worker_of(i, 2)).collect();
    assert_eq!(picked, vec![0, 1, 0, 1, 0]);
}

#[test]
fn latencies_are_sorted() {
    assert_eq!(result(5, 9, None).latency(), 4);
    assert_eq!(result(9, 5, None).latency(), 0);
    let mut report = Report::new();
    for (end, err) in [(30, None), (10, None), (99, Some("x")), (20, None), (10, None)] {
        report.push(result(0, end, err));
    }
    assert_eq!(report.latencies(), vec![10, 10, 20, 30]);
}

#[test]
fn errors_are_counted() {
    let mut report = Report::new();
    for err in [Some("b"), None, Some("a"), Some("b")] {
        report.push(result(0, 1, err));
    }
    let (n, counts) = report.error_counts();
    assert_eq!(n, 3);
    assert_eq!(counts, vec![("b".to_string(), 2), ("a".to_string(), 1)]);
}

#[test]
fn reports_are_laid_out() {
    let mut report = Report::new();
    assert_eq!(report.format(&figures()), "No results collected.");
    report.push(result(0, 1, Some("late")));
    assert_eq!(report.format(&figures()), "All requests failed.");
    report.push(result(0, 1, None));
    report.push(result(0, 2, None));
    assert_eq!(
        report.format(&figures()),
        "\nSummary:\n  Wall time:    10.00 ms\n  Requests:     2\n  Errors:       1\n  Slowest:      3.00 ms\n  \
         Fastest:      1.00 ms\n  Average:      2.00 ms\n  Stddev:       0.82 ms\n  RPS:          300.00\n\
         \nLatency Distribution:\n   10.0%:  1.00 ms\n   25.0%:  1.10 ms\n   50.0%:  1.20 ms\n   75.0%:  1.30 ms\n   \
         90.0%:  1.40 ms\n   95.0%:  1.50 ms\n   99.0%:  1.60 ms\n   99.9%:  1.70 ms\n\
         \nError Distribution:\n  1\tlate\n"
    );
    let mut clean = Report::new();
    clean.push(result(0, 1, None));
    let text = clean.format(&figures());
    assert!(!text.contains("Errors:") && !text.contains("Error Distribution"));
}
