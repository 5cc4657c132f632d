use monad_monitor::metrics::PrometheusMetrics;
use monad_monitor::rpc::{push_recent_block, Block, RpcData};
use monad_monitor::state::{AppState, DataUpdate, Theme};
use monad_monitor::system::SystemData;

fn metrics_sample(tx_commits: u64, timestamp_ms: u64) -> PrometheusMetrics {
    PrometheusMetrics {
        tx_commits,
        tx_commits_timestamp_ms: timestamp_ms,
        ..PrometheusMetrics::default()
    }
}

#[test]
fn tps_is_monotone_consistent() {
    let mut s = AppState::new(0);
    s.update_metrics(metrics_sample(100, 1_000), 1);
    s.update_metrics(metrics_sample(200, 2_000), 2);
    // (200 - 100) / 1000 ms * 1000 = 100.0 tx/s
    assert_eq!(s.tps_milli, 100_000);
}

#[test]
fn tps_unchanged_when_sample_pair_repeats() {
    let mut s = AppState::new(0);
    s.update_metrics(metrics_sample(100, 1_000), 1);
    s.update_metrics(metrics_sample(200, 2_000), 2);
    let tps = s.tps_milli;
    let history_len = s.tps_history.len();
    s.update_metrics(metrics_sample(200, 2_000), 3);
    assert_eq!(s.tps_milli, tps);
    // recomputation happened, but over the same window
    assert_eq!(s.tps_history.len(), history_len + 1);
}

#[test]
fn tps_end_to_end_scenario() {
    let t = 10_000u64;
    let mut s = AppState::new(0);
    s.update_metrics(metrics_sample(1000, t), 1);
    assert_eq!(s.tps_history.len(), 0);
    // the middle call repeats the timestamp and is not sampled
    s.update_metrics(metrics_sample(1000, t), 2);
    assert_eq!(s.tps_history.len(), 0);
    assert_eq!(s.tps_milli, 0);
    s.update_metrics(metrics_sample(1500, t + 2_000), 3);
    // 500 tx over 2000 ms = 250.0 tx/s, one new history entry
    assert_eq!(s.tps_milli, 250_000);
    assert_eq!(s.tps_history.len(), 1);
    assert_eq!(s.tps_sparkline_data(), vec![250]);
}

#[test]
fn tps_peak_is_a_high_water_mark() {
    let mut s = AppState::new(0);
    s.update_metrics(metrics_sample(0, 1_000), 1);
    s.update_metrics(metrics_sample(1000, 2_000), 2);
    assert_eq!(s.tps_peak_milli, 1_000_000);
    s.update_metrics(metrics_sample(1100, 3_000), 3);
    // window now spans 2000 ms for 1100 tx: 550/s, peak stays
    assert_eq!(s.tps_milli, 550_000);
    assert_eq!(s.tps_peak_milli, 1_000_000);
}

#[test]
fn sparkline_entries_are_capped() {
    let mut s = AppState::new(0);
    s.update_metrics(metrics_sample(0, 1_000), 1);
    s.update_metrics(metrics_sample(100_000_000, 2_000), 2);
    // 100000 tx/s caps at 10000 in the sparkline
    assert_eq!(s.tps_sparkline_data(), vec![10_000]);
}

#[test]
fn pulse_resets_fades_and_clamps() {
    let mut s = AppState::new(0);
    assert_eq!(s.pulse_intensity(5_000), 0);
    let m = PrometheusMetrics { block_num: 5, ..PrometheusMetrics::default() };
    s.update_metrics(m, 10_000);
    assert_eq!(s.pulse_intensity(10_000), 1000);
    assert_eq!(s.pulse_intensity(10_400), 600);
    assert!(s.pulse_intensity(10_400) > s.pulse_intensity(10_600));
    assert_eq!(s.pulse_intensity(11_000), 0);
    assert_eq!(s.pulse_intensity(12_345), 0);
    // a second block before the fade completes resets the pulse
    let m2 = PrometheusMetrics { block_num: 6, ..PrometheusMetrics::default() };
    s.update_metrics(m2, 10_500);
    assert_eq!(s.pulse_intensity(10_500), 1000);
}

#[test]
fn stale_block_number_does_not_reset_pulse() {
    let mut s = AppState::new(0);
    let m = PrometheusMetrics { block_num: 5, ..PrometheusMetrics::default() };
    s.update_metrics(m, 10_000);
    let stale = PrometheusMetrics { block_num: 5, ..PrometheusMetrics::default() };
    s.update_metrics(stale, 10_800);
    assert_eq!(s.pulse_intensity(10_800), 200);
}

#[test]
fn tps_trend_boundaries() {
    let mut s = AppState::new(0);
    s.tps_prev_milli = 100_000;
    // the sign shows exactly at the 50-TPS boundary, not one inside it
    s.tps_milli = 149_999;
    assert_eq!(s.tps_trend(), 0);
    s.tps_milli = 150_000;
    assert_eq!(s.tps_trend(), 1);
    s.tps_milli = 50_001;
    assert_eq!(s.tps_trend(), 0);
    s.tps_milli = 50_000;
    assert_eq!(s.tps_trend(), -1);
}

#[test]
fn latency_trend_boundaries() {
    let mut s = AppState::new(0);
    s.latency_prev = 100;
    // the sign shows exactly at the 20 ms boundary
    s.metrics.latency_p99_ms = 119;
    assert_eq!(s.latency_trend(), 0);
    s.metrics.latency_p99_ms = 120;
    assert_eq!(s.latency_trend(), 1);
    s.metrics.latency_p99_ms = 81;
    assert_eq!(s.latency_trend(), 0);
    s.metrics.latency_p99_ms = 80;
    assert_eq!(s.latency_trend(), -1);
}

#[test]
fn peers_trend_boundaries() {
    let mut s = AppState::new(0);
    s.peers_prev = 10;
    // the sign shows exactly at the 5-peer boundary
    s.metrics.peer_count = 14;
    assert_eq!(s.peers_trend(), 0);
    s.metrics.peer_count = 15;
    assert_eq!(s.peers_trend(), 1);
    s.metrics.peer_count = 6;
    assert_eq!(s.peers_trend(), 0);
    s.metrics.peer_count = 5;
    assert_eq!(s.peers_trend(), -1);
}

#[test]
fn trend_baselines_come_from_the_outgoing_snapshot() {
    let mut s = AppState::new(0);
    let mut m1 = PrometheusMetrics::default();
    m1.latency_p99_ms = 50;
    m1.peer_count = 7;
    s.update_metrics(m1, 1);
    let mut m2 = PrometheusMetrics::default();
    m2.latency_p99_ms = 90;
    m2.peer_count = 20;
    s.update_metrics(m2, 2);
    assert_eq!(s.latency_prev, 50);
    assert_eq!(s.peers_prev, 7);
    assert_eq!(s.latency_trend(), 1);
    assert_eq!(s.peers_trend(), 1);
}

#[test]
fn block_height_prefers_rpc() {
    let mut s = AppState::new(0);
    s.metrics.block_num = 10;
    assert_eq!(s.block_height(), 10);
    let mut d = RpcData::empty();
    d.block_number = 12;
    s.update_rpc(d, 1);
    assert_eq!(s.block_height(), 12);
}

#[test]
fn update_rpc_tracks_newer_heads() {
    let mut s = AppState::new(0);
    let mut d = RpcData::empty();
    d.block_number = 9;
    push_recent_block(
        &mut d.recent_blocks,
        Block {
            number: 9,
            hash: "0x9".to_string(),
            tx_count: 1,
            timestamp: 0,
            gas_used: 0,
            gas_limit: 0,
        },
    );
    s.update_rpc(d, 7_000);
    assert_eq!(s.time_since_last_block(7_500), Some(500));
    assert_eq!(s.recent_blocks().len(), 1);
}

#[test]
fn update_rpc_keys_tracking_on_the_head_number() {
    // an advanced head refreshes the instant even when every block
    // fetch failed and the window is empty
    let mut s = AppState::new(0);
    let mut d = RpcData::empty();
    d.block_number = 7;
    s.update_rpc(d, 3_000);
    assert_eq!(s.time_since_last_block(3_250), Some(250));
    // a snapshot whose head does not advance leaves the instant alone
    let mut stale = RpcData::empty();
    stale.block_number = 7;
    s.update_rpc(stale, 4_000);
    assert_eq!(s.time_since_last_block(4_000), Some(1_000));
}

#[test]
fn update_system_derives_rates_from_counter_deltas() {
    let mut s = AppState::new(0);
    let mut sys1 = SystemData::default();
    sys1.net_rx_bytes = 1_000;
    sys1.net_tx_bytes = 2_000;
    s.update_system(sys1);
    assert_eq!(s.net_rx_rate, 0);
    let mut sys2 = SystemData::default();
    sys2.net_rx_bytes = 6_000;
    sys2.net_tx_bytes = 12_000;
    s.update_system(sys2);
    assert_eq!(s.net_rx_rate, 1_000);
    assert_eq!(s.net_tx_rate, 2_000);
    // a counter reset keeps the previous rate
    let mut sys3 = SystemData::default();
    sys3.net_rx_bytes = 100;
    sys3.net_tx_bytes = 100;
    s.update_system(sys3);
    assert_eq!(s.net_rx_rate, 1_000);
    assert_eq!(s.net_tx_rate, 2_000);
}

#[test]
fn only_metrics_success_clears_the_error() {
    let mut s = AppState::new(0);
    s.apply_update(DataUpdate::Rpc(Err("connection refused".to_string())), 1);
    assert_eq!(s.last_error.as_deref(), Some("rpc: connection refused"));
    s.apply_update(DataUpdate::System(Ok(SystemData::default())), 2);
    assert_eq!(s.last_error.as_deref(), Some("rpc: connection refused"));
    s.apply_update(DataUpdate::Rpc(Ok(RpcData::empty())), 3);
    assert_eq!(s.last_error.as_deref(), Some("rpc: connection refused"));
    s.apply_update(DataUpdate::Metrics(Ok(PrometheusMetrics::default())), 4);
    assert_eq!(s.last_error, None);
    s.apply_update(DataUpdate::Metrics(Err("timeout".to_string())), 5);
    assert_eq!(s.last_error.as_deref(), Some("metrics: timeout"));
    s.apply_update(DataUpdate::System(Err("probe".to_string())), 6);
    assert_eq!(s.last_error.as_deref(), Some("system: probe"));
}

#[test]
fn bandwidth_formatting() {
    assert_eq!(AppState::format_bandwidth(0), "0B/s");
    assert_eq!(AppState::format_bandwidth(999), "999B/s");
    assert_eq!(AppState::format_bandwidth(1_000), "1KB/s");
    assert_eq!(AppState::format_bandwidth(1_500), "2KB/s");
    assert_eq!(AppState::format_bandwidth(2_500_000), "2.5MB/s");
    assert_eq!(AppState::format_bandwidth(999_949_999), "999.9MB/s");
    assert_eq!(AppState::format_bandwidth(1_234_000_000), "1.2GB/s");
}

#[test]
fn sync_status_and_peer_health_buckets() {
    let mut s = AppState::new(0);
    assert_eq!(s.sync_status(), "synced");
    s.metrics.statesync_target = 100;
    s.metrics.statesync_progress = 50;
    assert_eq!(s.sync_status(), "syncing");
    s.metrics.peer_count = 0;
    assert_eq!(s.peer_health(), "no peers");
    s.metrics.peer_count = 1;
    assert_eq!(s.peer_health(), "low");
    s.metrics.peer_count = 10;
    assert_eq!(s.peer_health(), "low");
    s.metrics.peer_count = 11;
    assert_eq!(s.peer_health(), "ok");
    s.metrics.peer_count = 50;
    assert_eq!(s.peer_health(), "ok");
    s.metrics.peer_count = 51;
    assert_eq!(s.peer_health(), "healthy");
}

#[test]
fn theme_cycles_through_all_names() {
    let mut s = AppState::new(0);
    assert_eq!(s.theme_name(), "gray");
    let expected = ["light", "monad", "matrix", "ocean", "christmas", "gray"];
    for name in expected {
        s.toggle_theme();
        assert_eq!(s.theme_name(), name);
    }
    assert_eq!(s.theme, Theme::Gray);
}

#[test]
fn time_since_last_block_is_none_until_a_block() {
    let s = AppState::new(0);
    assert_eq!(s.time_since_last_block(1_000), None);
}
