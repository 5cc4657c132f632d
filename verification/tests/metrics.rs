use monad_monitor::metrics::{parse_metric_line, parse_metrics, PrometheusMetrics};

#[test]
fn test_parse_metric_line() {
    let line = r#"monad_execution_ledger_block_num{job="test"} 4.1929095e+07 1765694534456"#;
    let (name, value, ts) = parse_metric_line(line).unwrap();
    assert_eq!(name, "monad_execution_ledger_block_num");
    assert_eq!(value, 41929095);
    assert_eq!(ts, 1765694534456);
}

#[test]
fn parse_metric_line_without_labels() {
    let (name, value, ts) = parse_metric_line("monad_peer_disc_num_peers 42").unwrap();
    assert_eq!(name, "monad_peer_disc_num_peers");
    assert_eq!(value, 42);
    assert_eq!(ts, 0);
}

#[test]
fn parse_metric_line_bad_timestamp_defaults_to_zero() {
    let (_, value, ts) = parse_metric_line("foo 7 not_a_number").unwrap();
    assert_eq!(value, 7);
    assert_eq!(ts, 0);
}

#[test]
fn parse_metric_line_rejects_valueless_lines() {
    assert!(parse_metric_line("just_a_name").is_none());
    assert!(parse_metric_line("name{unclosed 5").is_none());
    assert!(parse_metric_line("name notanumber 5").is_none());
}

#[test]
fn parse_metrics_projects_known_names() {
    let body = "\
# HELP monad_execution_ledger_block_num height\n\
monad_execution_ledger_block_num{job=\"x\"} 123456 111\n\
monad_execution_ledger_num_tx_commits 5000 1700000000000\n\
monad_peer_disc_num_peers 17\n\
monad_statesync_progress_estimate 90\n\
monad_statesync_last_target 100\n\
monad_total_uptime_us 987654321\n\
monad_bft_raptorcast_udp_secondary_broadcast_latency_p99_ms 42\n\
monad_bft_txpool_pool_tracked_txs 9\n\
monad_peer_disc_num_upstream_validators 3\n";
    let m = parse_metrics(body);
    assert_eq!(m.block_num, 123456);
    assert_eq!(m.tx_commits, 5000);
    assert_eq!(m.tx_commits_timestamp_ms, 1700000000000);
    assert_eq!(m.peer_count, 17);
    assert_eq!(m.statesync_progress, 90);
    assert_eq!(m.statesync_target, 100);
    assert_eq!(m.uptime_us, 987654321);
    assert_eq!(m.latency_p99_ms, 42);
    assert_eq!(m.pending_txs, 9);
    assert_eq!(m.upstream_validators, 3);
}

#[test]
fn parse_metrics_ignores_unknown_names_and_bad_lines() {
    let body = "\
some_other_metric 999\n\
monad_peer_disc_num_peers 8\n\
broken line with no number\n\
\n\
# a comment\n";
    let m = parse_metrics(body);
    assert_eq!(m.peer_count, 8);
    assert_eq!(m, PrometheusMetrics { peer_count: 8, ..PrometheusMetrics::default() });
}

#[test]
fn sync_percentage_zero_target_counts_as_synced() {
    let m = PrometheusMetrics::default();
    assert_eq!(m.sync_percentage(), 10000);
    assert!(m.is_synced());
}

#[test]
fn is_synced_boundary() {
    let mut m = PrometheusMetrics::default();
    m.statesync_target = 10000;
    m.statesync_progress = 9999;
    assert_eq!(m.sync_percentage(), 9999);
    assert!(m.is_synced());
    m.statesync_progress = 9998;
    assert_eq!(m.sync_percentage(), 9998);
    assert!(!m.is_synced());
}

#[test]
fn parse_metric_line_negative_value_clamps_to_zero() {
    let (_, value, _) = parse_metric_line("gauge -3.5").unwrap();
    assert_eq!(value, 0);
}

#[test]
fn parse_metric_line_huge_value_saturates() {
    let (_, value, _) = parse_metric_line("counter 1e30").unwrap();
    assert_eq!(value, u64::MAX);
}
