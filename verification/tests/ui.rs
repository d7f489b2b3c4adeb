use netperf::common::control::{StreamStats, TestResults};
use netperf::common::data::Direction;
use netperf::common::ui::{humanize_bytes, result_entries, summarize, summary_fits, StatsRow};
use std::collections::HashMap;

// The formatting through floating point that the sizes are meant to match.
fn through_floats(bytes: usize) -> String {
    const KBYTES: usize = 1024;
    const MBYTES: usize = 1024 * KBYTES;
    const GBYTES: usize = 1024 * MBYTES;
    const TBYTES: usize = 1024 * GBYTES;
    if bytes < KBYTES {
        format!("{} B", bytes)
    } else if bytes < MBYTES {
        format!("{:.2} KiB", bytes as f64 / KBYTES as f64)
    } else if bytes < GBYTES {
        format!("{:.2} MiB", bytes as f64 / MBYTES as f64)
    } else if bytes < TBYTES {
        format!("{:.2} GiB", bytes as f64 / GBYTES as f64)
    } else {
        format!("{:.2} TiB", bytes as f64 / TBYTES as f64)
    }
}

#[test]
fn humanize_bytes_exact_values() {
    assert_eq!(humanize_bytes(0), "0 B");
    assert_eq!(humanize_bytes(1023), "1023 B");
    assert_eq!(humanize_bytes(1024), "1.00 KiB");
    assert_eq!(humanize_bytes(1536), "1.50 KiB");
    assert_eq!(humanize_bytes(1048576), "1.00 MiB");
    assert_eq!(humanize_bytes(2 * 1048576 + 524288), "2.50 MiB");
    assert_eq!(humanize_bytes(1073741824), "1.00 GiB");
    assert_eq!(humanize_bytes(1099511627776), "1.00 TiB");
    assert_eq!(humanize_bytes(5 * 1099511627776 + 1099511627776 / 4), "5.25 TiB");
}

#[test]
fn humanize_bytes_rounding_ties() {
    // 1152 / 1024 = 1.125 exactly: a tie between 1.12 and 1.13
    assert_eq!(humanize_bytes(1152), through_floats(1152));
    // 1.375 KiB and 1.625 KiB
    assert_eq!(humanize_bytes(1408), through_floats(1408));
    assert_eq!(humanize_bytes(1664), through_floats(1664));
}

#[test]
fn humanize_bytes_matches_float_formatting() {
    let mut v: usize = 1;
    while v < (1usize << 52) {
        for delta in [0usize, 1, 7, 511, 512, 513, 1023] {
            let b = v + delta;
            assert_eq!(humanize_bytes(b), through_floats(b), "bytes = {}", b);
        }
        v = v * 3 + 1;
    }
    for b in 0..5000usize {
        assert_eq!(humanize_bytes(b), through_floats(b), "bytes = {}", b);
    }
    for k in 0..4000usize {
        let b = 1048576 + k * 131;
        assert_eq!(humanize_bytes(b), through_floats(b), "bytes = {}", b);
    }
}

fn stats(sender: bool, duration_millis: u64, bytes_transferred: usize) -> StreamStats {
    StreamStats { sender, duration_millis, bytes_transferred }
}

fn results(entries: &[(usize, StreamStats)]) -> TestResults {
    let mut streams = HashMap::new();
    for (id, s) in entries {
        streams.insert(*id, *s);
    }
    TestResults { streams }
}

#[test]
fn summary_pairs_local_and_remote_ends() {
    let local = vec![(0usize, stats(true, 10000, 500)), (1, stats(true, 9000, 700))];
    let remote = results(&[(0, stats(false, 10010, 490)), (1, stats(false, 9100, 690))]);
    assert!(summary_fits(&local, &remote, Direction::ClientToServer));
    let s = summarize(&local, &remote, Direction::ClientToServer);
    assert_eq!(
        s.rows,
        vec![
            StatsRow { id: Some(0), duration_millis: 10000, bytes_transferred: 500, sender: true },
            StatsRow { id: Some(0), duration_millis: 10010, bytes_transferred: 490, sender: false },
            StatsRow { id: Some(1), duration_millis: 9000, bytes_transferred: 700, sender: true },
            StatsRow { id: Some(1), duration_millis: 9100, bytes_transferred: 690, sender: false },
        ]
    );
    assert_eq!(
        s.totals,
        Some((
            StatsRow { id: None, duration_millis: 10000, bytes_transferred: 1200, sender: true },
            StatsRow { id: None, duration_millis: 10010, bytes_transferred: 1180, sender: false },
        ))
    );
}

#[test]
fn summary_bidirectional_ignores_remote() {
    let local = vec![(0usize, stats(true, 10000, 500)), (1, stats(false, 8000, 300))];
    let remote = results(&[(0, stats(false, 10010, 490)), (1, stats(true, 9100, 690))]);
    let s = summarize(&local, &remote, Direction::Bidirectional);
    assert_eq!(s.rows.len(), 2);
    assert_eq!(
        s.totals,
        Some((
            StatsRow { id: None, duration_millis: 10000, bytes_transferred: 500, sender: true },
            StatsRow { id: None, duration_millis: 8000, bytes_transferred: 300, sender: false },
        ))
    );
}

#[test]
fn summary_single_stream_has_no_totals() {
    let local = vec![(0usize, stats(false, 10000, 500))];
    let remote = results(&[(3, stats(true, 10010, 490))]);
    let s = summarize(&local, &remote, Direction::ServerToClient);
    // the remote side has no stream 0: only the local line
    assert_eq!(
        s.rows,
        vec![StatsRow { id: Some(0), duration_millis: 10000, bytes_transferred: 500, sender: false }]
    );
    assert_eq!(s.totals, None);
}

#[test]
fn summary_overflow_is_detected() {
    let local = vec![(0usize, stats(true, 1, usize::MAX)), (1, stats(true, 1, 1))];
    let remote = results(&[]);
    assert!(!summary_fits(&local, &remote, Direction::ClientToServer));
    let local = vec![(0usize, stats(true, 1, usize::MAX)), (1, stats(false, 1, 1))];
    assert!(summary_fits(&local, &remote, Direction::ClientToServer));
}

#[test]
fn entries_hold_every_stream_once() {
    let r = results(&[(4, stats(true, 1, 2)), (9, stats(false, 3, 4)), (1, stats(true, 5, 6))]);
    let mut e = result_entries(&r);
    e.sort_by_key(|p| p.0);
    assert_eq!(e, vec![(1, stats(true, 5, 6)), (4, stats(true, 1, 2)), (9, stats(false, 3, 4))]);
}
