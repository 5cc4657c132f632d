use monad_monitor::system::{
    memory_stats, parse_cpu_stat, parse_meminfo, parse_mpt_output, parse_netdev,
    parse_systemd_timestamp, SystemData,
};

#[test]
fn systemd_timestamp_parses_the_documented_shape() {
    let ts = parse_systemd_timestamp("ActiveEnterTimestamp=Thu 2025-12-11 21:20:59 CET");
    assert_eq!(ts, Some(1_765_484_459));
}

#[test]
fn systemd_timestamp_rejects_missing_or_empty_fields() {
    assert_eq!(parse_systemd_timestamp("no equals sign here"), None);
    assert_eq!(parse_systemd_timestamp("ActiveEnterTimestamp="), None);
    assert_eq!(parse_systemd_timestamp("ActiveEnterTimestamp=n/a"), None);
    assert_eq!(parse_systemd_timestamp("ActiveEnterTimestamp=Thu 2025-12-11"), None);
    assert_eq!(parse_systemd_timestamp("ActiveEnterTimestamp=Thu 2025-12 21:20:59 CET"), None);
}

#[test]
fn mpt_output_fills_disk_history_and_finality() {
    let output = "\
Storage overview\n\
  1.75 Tb      109.30 Gb  6.11%\n\
MPT database has 637751 history, earliest is 41295350 latest is 41933100.\n\
Latest finalized is 41933098, latest verified is 41933095\n";
    let mut data = SystemData::default();
    parse_mpt_output(output, &mut data);
    assert_eq!(data.disk_capacity_cgb, 175 * 1024);
    assert_eq!(data.disk_used_cgb, 10930);
    assert_eq!(data.disk_used_cpct, 611);
    assert_eq!(data.history_count, 637751);
    assert_eq!(data.history_earliest, 41295350);
    assert_eq!(data.history_latest, 41933100);
    assert_eq!(data.latest_finalized, 41933098);
    assert_eq!(data.latest_verified, 41933095);
}

#[test]
fn mpt_output_normalizes_megabyte_usage() {
    let mut data = SystemData::default();
    // the line must mention both size units to be recognized at all
    parse_mpt_output("2.00 Tb      512.00 Mb  0.02% (of 2048 Gb)\n", &mut data);
    assert_eq!(data.disk_capacity_cgb, 200 * 1024);
    // 512.00 Mb = 51200 hundredths of a Mb, over 1024 = 0.50 GB
    assert_eq!(data.disk_used_cgb, 50);
    assert_eq!(data.disk_used_cpct, 2);
}

#[test]
fn mpt_output_ignores_unrelated_lines() {
    let mut data = SystemData::default();
    parse_mpt_output("nothing to see\njust text\n", &mut data);
    assert_eq!(data.disk_capacity_cgb, 0);
    assert_eq!(data.history_count, 0);
}

#[test]
fn lags_saturate_at_zero() {
    let mut data = SystemData::default();
    data.history_latest = 100;
    data.latest_finalized = 97;
    data.latest_verified = 103;
    assert_eq!(data.finalized_lag(), 3);
    assert_eq!(data.verified_lag(), 0);
}

#[test]
fn block_difference_is_zero_without_an_external_head() {
    let mut data = SystemData::default();
    assert_eq!(data.block_difference(12345), 0);
    data.external_block = 100;
    assert_eq!(data.block_difference(90), 10);
    assert_eq!(data.block_difference(110), -10);
    assert_eq!(data.block_difference(100), 0);
}

#[test]
fn all_services_running_is_a_conjunction() {
    let mut data = SystemData::default();
    assert!(!data.all_services_running());
    data.service_bft = true;
    data.service_execution = true;
    assert!(!data.all_services_running());
    data.service_rpc = true;
    assert!(data.all_services_running());
}

#[test]
fn uptime_formats_by_magnitude() {
    let mut data = SystemData::default();
    assert_eq!(data.uptime_since_restart(1_000), "...");
    data.service_started_at = 2_000;
    assert_eq!(data.uptime_since_restart(1_000), "...");
    data.service_started_at = 1_000;
    assert_eq!(data.uptime_since_restart(1_000 + 61), "1m");
    assert_eq!(data.uptime_since_restart(1_000 + 3_661), "1h 1m");
    assert_eq!(data.uptime_since_restart(1_000 + 90_061), "1d 1h");
}

#[test]
fn meminfo_parses_totals_and_derives_shares() {
    let meminfo = "MemTotal:       16384256 kB\nMemFree:         1000 kB\nMemAvailable:    8192128 kB\n";
    let (total, avail) = parse_meminfo(meminfo);
    assert_eq!(total, 16384256);
    assert_eq!(avail, 8192128);
    let (pct, used, total_out) = memory_stats(total, avail);
    assert_eq!(used, 8192128);
    assert_eq!(total_out, 16384256);
    assert_eq!(pct, 5000);
    assert_eq!(memory_stats(0, 5), (0, 0, 0));
}

#[test]
fn cpu_share_is_the_complement_of_idle() {
    let stat = "cpu  100 0 100 200 0 0 0 0 0 0\ncpu0 1 2 3 4\n";
    assert_eq!(parse_cpu_stat(stat), 5000);
    assert_eq!(parse_cpu_stat("cpu 1 2 3\n"), 0);
    assert_eq!(parse_cpu_stat(""), 0);
}

#[test]
fn netdev_sums_interfaces_except_loopback() {
    let netdev = "\
Inter-|   Receive                                                |  Transmit\n\
 face |bytes    packets errs drop fifo frame compressed multicast|bytes    packets errs drop fifo colls carrier compressed\n\
    lo: 999999  100    0    0    0     0          0         0 888888  100    0    0    0     0       0          0\n\
  eth0: 1000  10    0    0    0     0          0         0 2000  20    0    0    0     0       0          0\n\
  eth1: 50  1    0    0    0     0          0         0 70  2    0    0    0     0       0          0\n";
    assert_eq!(parse_netdev(netdev), (1050, 2070));
}
