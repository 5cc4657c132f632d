//! The aggregator: one mutable state fed by the three sources,
//! maintaining sliding-window throughput, trend baselines and
//! animation timing.
//!
//! Rates that the sources report as decimal fractions are carried as
//! fixed-point integers: transactions per second in thousandths
//! (`tps_milli`), pulse intensity in thousandths of full brightness,
//! percentages in hundredths.  Every time-dependent operation takes
//! the current time as an argument.

use vstd::prelude::*;
use vstd::string::StringExecFns;
use std::collections::VecDeque;
use crate::fmt::{push_dec_u64, dec_digit_char, spec_dec_digits};
use crate::metrics::{PrometheusMetrics, spec_sync_bp};
use crate::rpc::{Block, RpcData, rpc_data_wf};
use crate::system::SystemData;

verus! {

/// Entries kept in the throughput sparkline ring.
pub const TPS_HISTORY_SIZE: usize = 300;

/// Transaction samples kept for the throughput window.
pub const SAMPLE_HISTORY_SIZE: usize = 10;

/// Thousandths of a transaction per second that a change must reach
/// to count as a trend.
pub const TPS_NOISE_MILLI: u64 = 50000;

/// Milliseconds of latency that a change must reach to count as a
/// trend.
pub const LATENCY_NOISE_MS: u64 = 20;

/// Peers that a change must reach to count as a trend.
pub const PEERS_NOISE: u64 = 5;

/// How long the new-block pulse takes to fade, in milliseconds.
pub const PULSE_FADE_MS: u64 = 1000;

/// The display themes, cycled in order.
#[derive(Clone, Copy, Debug, PartialEq, Eq, Structural)]
pub enum Theme {
    Gray,
    Light,
    Monad,
    Matrix,
    Ocean,
    Christmas,
}

/// One transaction-counter reading and its timestamp.
#[derive(Clone, Copy, Debug, PartialEq, Eq, Structural)]
pub struct TxSample {
    pub tx_commits: u64,
    pub timestamp_ms: u64,
}

/// Sample timestamps strictly increase from oldest to newest.
pub open spec fn samples_increasing(s: Seq<TxSample>) -> bool {
    forall|i: int, j: int| 0 <= i < j < s.len() ==> s[i].timestamp_ms < s[j].timestamp_ms
}

/// The aggregator's state.
pub struct AppState {
    pub metrics: PrometheusMetrics,
    pub rpc_data: RpcData,
    pub system: SystemData,
    pub tx_samples: VecDeque<TxSample>,
    /// Current throughput, thousandths of a transaction per second.
    pub tps_milli: u64,
    /// Whole transactions per second, capped at 10000, per tick.
    pub tps_history: VecDeque<u64>,
    pub tps_peak_milli: u64,
    pub tps_prev_milli: u64,
    pub last_update_ms: u64,
    pub last_block_time_ms: Option<u64>,
    pub last_block_number: u64,
    pub latency_prev: u64,
    pub peers_prev: u64,
    pub net_rx_prev: u64,
    pub net_tx_prev: u64,
    /// Receive rate, bytes per second.
    pub net_rx_rate: u64,
    /// Transmit rate, bytes per second.
    pub net_tx_rate: u64,
    pub last_error: Option<String>,
    pub theme: Theme,
}

impl AppState {
    /// The rings stay within capacity, samples stay ordered, every
    /// sparkline entry stays within the display cap, and the block
    /// window keeps its own invariant.
    pub open spec fn wf(self) -> bool {
        &&& self.tx_samples@.len() <= SAMPLE_HISTORY_SIZE
        &&& samples_increasing(self.tx_samples@)
        &&& self.tps_history@.len() <= TPS_HISTORY_SIZE
        &&& forall|i: int| 0 <= i < self.tps_history@.len() ==> #[trigger] self.tps_history@[i]
            <= 10000
        &&& rpc_data_wf(self.rpc_data)
    }
}

/// How one metrics snapshot changes the sample ring: a reading with a
/// fresh, strictly newer timestamp is appended and the oldest sample
/// beyond capacity evicted; anything else leaves the ring alone.
pub open spec fn spec_push_sample(samples: Seq<TxSample>, tx: u64, ts: u64) -> Seq<TxSample> {
    if ts > 0 && (samples.len() == 0 || ts > samples.last().timestamp_ms) {
        let appended = samples.push(TxSample { tx_commits: tx, timestamp_ms: ts });
        if appended.len() > SAMPLE_HISTORY_SIZE {
            appended.drop_first()
        } else {
            appended
        }
    } else {
        samples
    }
}

/// Throughput can be computed once two samples span a positive
/// interval.
pub open spec fn spec_tps_computable(samples: Seq<TxSample>) -> bool {
    samples.len() >= 2 && samples.last().timestamp_ms > samples.first().timestamp_ms
}

/// Throughput over the whole ring, in thousandths per second:
/// `(counter delta / elapsed ms) * 1000`, from the oldest and newest
/// samples only, saturating.
pub open spec fn spec_tps_milli(samples: Seq<TxSample>) -> u64 {
    let tx_delta = if samples.last().tx_commits >= samples.first().tx_commits {
        samples.last().tx_commits - samples.first().tx_commits
    } else {
        0
    };
    let dt = samples.last().timestamp_ms - samples.first().timestamp_ms;
    let v = tx_delta * 1000000 / dt;
    if v > u64::MAX {
        u64::MAX
    } else {
        v as u64
    }
}

pub open spec fn spec_tps_after(samples: Seq<TxSample>, old_tps: u64) -> u64 {
    if spec_tps_computable(samples) {
        spec_tps_milli(samples)
    } else {
        old_tps
    }
}

pub open spec fn spec_tps_prev_after(samples: Seq<TxSample>, old_tps: u64, old_prev: u64) -> u64 {
    if spec_tps_computable(samples) {
        old_tps
    } else {
        old_prev
    }
}

pub open spec fn spec_tps_peak_after(samples: Seq<TxSample>, old_peak: u64) -> u64 {
    if spec_tps_computable(samples) {
        if spec_tps_milli(samples) > old_peak {
            spec_tps_milli(samples)
        } else {
            old_peak
        }
    } else {
        old_peak
    }
}

/// The sparkline entry for a computed throughput: whole transactions
/// per second, capped at 10000.
pub open spec fn spec_tps_entry(tps_milli: u64) -> u64 {
    (if tps_milli > 10000000 {
        10000000
    } else {
        tps_milli as int
    }) as u64 / 1000
}

pub open spec fn spec_history_after(history: Seq<u64>, samples: Seq<TxSample>) -> Seq<u64> {
    if spec_tps_computable(samples) {
        let appended = history.push(spec_tps_entry(spec_tps_milli(samples)));
        if appended.len() > TPS_HISTORY_SIZE {
            appended.drop_first()
        } else {
            appended
        }
    } else {
        history
    }
}

/// The whole effect of one metrics ingestion, field by field.
pub open spec fn spec_metrics_step(
    pre: AppState,
    m: PrometheusMetrics,
    now_ms: u64,
    post: AppState,
) -> bool {
    &&& post.metrics == m
    &&& post.last_error is None
    &&& post.last_update_ms == now_ms
    &&& post.latency_prev == pre.metrics.latency_p99_ms
    &&& post.peers_prev == pre.metrics.peer_count
    &&& (if m.block_num > pre.last_block_number {
        post.last_block_time_ms == Some(now_ms) && post.last_block_number == m.block_num
    } else {
        post.last_block_time_ms == pre.last_block_time_ms && post.last_block_number
            == pre.last_block_number
    })
    &&& post.tx_samples@ == spec_push_sample(pre.tx_samples@, m.tx_commits, m.tx_commits_timestamp_ms)
    &&& post.tps_milli == spec_tps_after(post.tx_samples@, pre.tps_milli)
    &&& post.tps_prev_milli == spec_tps_prev_after(post.tx_samples@, pre.tps_milli, pre.tps_prev_milli)
    &&& post.tps_peak_milli == spec_tps_peak_after(post.tx_samples@, pre.tps_peak_milli)
    &&& post.tps_history@ == spec_history_after(pre.tps_history@, post.tx_samples@)
    &&& post.rpc_data == pre.rpc_data
    &&& post.system == pre.system
    &&& post.net_rx_prev == pre.net_rx_prev
    &&& post.net_tx_prev == pre.net_tx_prev
    &&& post.net_rx_rate == pre.net_rx_rate
    &&& post.net_tx_rate == pre.net_tx_rate
    &&& post.theme == pre.theme
}

/// The whole effect of one chain-snapshot ingestion: the snapshot is
/// replaced wholesale, and a head number above any block seen
/// refreshes the last-block instant.
pub open spec fn spec_rpc_step(
    pre: AppState,
    rpc_data: RpcData,
    now_ms: u64,
    post: AppState,
) -> bool {
    &&& post.rpc_data == rpc_data
    &&& (if rpc_data.block_number > pre.last_block_number {
        post.last_block_time_ms == Some(now_ms) && post.last_block_number == rpc_data.block_number
    } else {
        post.last_block_time_ms == pre.last_block_time_ms && post.last_block_number
            == pre.last_block_number
    })
    &&& post.metrics == pre.metrics
    &&& post.system == pre.system
    &&& post.tx_samples == pre.tx_samples
    &&& post.tps_milli == pre.tps_milli
    &&& post.tps_prev_milli == pre.tps_prev_milli
    &&& post.tps_peak_milli == pre.tps_peak_milli
    &&& post.tps_history == pre.tps_history
    &&& post.last_update_ms == pre.last_update_ms
    &&& post.latency_prev == pre.latency_prev
    &&& post.peers_prev == pre.peers_prev
    &&& post.net_rx_prev == pre.net_rx_prev
    &&& post.net_tx_prev == pre.net_tx_prev
    &&& post.net_rx_rate == pre.net_rx_rate
    &&& post.net_tx_rate == pre.net_tx_rate
    &&& post.last_error == pre.last_error
    &&& post.theme == pre.theme
}

/// The whole effect of one host-snapshot ingestion: rates derive from
/// forward counter deltas over the fixed five-second probe interval.
pub open spec fn spec_system_step(pre: AppState, system: SystemData, post: AppState) -> bool {
    &&& post.system == system
    &&& post.net_rx_prev == system.net_rx_bytes
    &&& post.net_tx_prev == system.net_tx_bytes
    &&& post.net_rx_rate == (if pre.net_rx_prev > 0 && system.net_rx_bytes > pre.net_rx_prev {
        ((system.net_rx_bytes - pre.net_rx_prev) / 5) as u64
    } else {
        pre.net_rx_rate
    })
    &&& post.net_tx_rate == (if pre.net_tx_prev > 0 && system.net_tx_bytes > pre.net_tx_prev {
        ((system.net_tx_bytes - pre.net_tx_prev) / 5) as u64
    } else {
        pre.net_tx_rate
    })
    &&& post.metrics == pre.metrics
    &&& post.rpc_data == pre.rpc_data
    &&& post.tx_samples == pre.tx_samples
    &&& post.tps_milli == pre.tps_milli
    &&& post.tps_prev_milli == pre.tps_prev_milli
    &&& post.tps_peak_milli == pre.tps_peak_milli
    &&& post.tps_history == pre.tps_history
    &&& post.last_update_ms == pre.last_update_ms
    &&& post.last_block_time_ms == pre.last_block_time_ms
    &&& post.last_block_number == pre.last_block_number
    &&& post.latency_prev == pre.latency_prev
    &&& post.peers_prev == pre.peers_prev
    &&& post.last_error == pre.last_error
    &&& post.theme == pre.theme
}

/// The whole effect of recording a failure: the message is stored and
/// nothing else changes.
pub open spec fn spec_error_step(pre: AppState, message: Seq<char>, post: AppState) -> bool {
    &&& (post.last_error matches Some(e) && e@ == message)
    &&& post.metrics == pre.metrics
    &&& post.rpc_data == pre.rpc_data
    &&& post.system == pre.system
    &&& post.tx_samples == pre.tx_samples
    &&& post.tps_milli == pre.tps_milli
    &&& post.tps_prev_milli == pre.tps_prev_milli
    &&& post.tps_peak_milli == pre.tps_peak_milli
    &&& post.tps_history == pre.tps_history
    &&& post.last_update_ms == pre.last_update_ms
    &&& post.last_block_time_ms == pre.last_block_time_ms
    &&& post.last_block_number == pre.last_block_number
    &&& post.latency_prev == pre.latency_prev
    &&& post.peers_prev == pre.peers_prev
    &&& post.net_rx_prev == pre.net_rx_prev
    &&& post.net_tx_prev == pre.net_tx_prev
    &&& post.net_rx_rate == pre.net_rx_rate
    &&& post.net_tx_rate == pre.net_tx_rate
    &&& post.theme == pre.theme
}

impl Default for Theme {
    fn default() -> (r: Self)
        ensures
            r == Theme::Gray,
    {
        Theme::Gray
    }
}

impl Default for AppState {
    /// A fresh state with the clock at zero.
    fn default() -> (r: Self)
        ensures
            r.wf(),
            r.last_update_ms == 0,
            r.last_error is None,
            r.theme == Theme::Gray,
    {
        AppState::new(0)
    }
}

impl AppState {
    /// A fresh state: zeroed snapshots, empty rings, no error.
    pub fn new(now_ms: u64) -> (r: AppState)
        ensures
            r.wf(),
            r.metrics == crate::metrics::spec_default_metrics(),
            crate::system::spec_default_system(r.system),
            r.rpc_data.block_number == 0,
            r.rpc_data.recent_blocks@.len() == 0,
            r.tx_samples@.len() == 0,
            r.tps_milli == 0,
            r.tps_history@.len() == 0,
            r.tps_peak_milli == 0,
            r.tps_prev_milli == 0,
            r.last_update_ms == now_ms,
            r.last_block_time_ms is None,
            r.last_block_number == 0,
            r.latency_prev == 0,
            r.peers_prev == 0,
            r.net_rx_prev == 0,
            r.net_tx_prev == 0,
            r.net_rx_rate == 0,
            r.net_tx_rate == 0,
            r.last_error is None,
            r.theme == Theme::Gray,
    {
        AppState {
            metrics: PrometheusMetrics::default(),
            rpc_data: RpcData::empty(),
            system: SystemData::default(),
            tx_samples: VecDeque::new(),
            tps_milli: 0,
            tps_history: VecDeque::new(),
            tps_peak_milli: 0,
            tps_prev_milli: 0,
            last_update_ms: now_ms,
            last_block_time_ms: None,
            last_block_number: 0,
            latency_prev: 0,
            peers_prev: 0,
            net_rx_prev: 0,
            net_tx_prev: 0,
            net_rx_rate: 0,
            net_tx_rate: 0,
            last_error: None,
            theme: Theme::Gray,
        }
    }

    /// Ingests a metrics snapshot at time `now_ms`: tracks a new
    /// block, samples the transaction counter, recomputes throughput
    /// from the oldest and newest samples, captures the trend
    /// baselines from the outgoing snapshot, and clears the error.
    pub fn update_metrics(&mut self, m: PrometheusMetrics, now_ms: u64)
        requires
            old(self).wf(),
        ensures
            final(self).wf(),
            spec_metrics_step(*old(self), m, now_ms, *final(self)),
    {
        if m.block_num > self.last_block_number {
            self.last_block_time_ms = Some(now_ms);
            self.last_block_number = m.block_num;
        }
        let ghost samples0 = self.tx_samples@;
        if m.tx_commits_timestamp_ms > 0 {
            let len = self.tx_samples.len();
            let newer = if len == 0 {
                true
            } else {
                m.tx_commits_timestamp_ms > self.tx_samples[len - 1].timestamp_ms
            };
            if newer {
                let sample = TxSample {
                    tx_commits: m.tx_commits,
                    timestamp_ms: m.tx_commits_timestamp_ms,
                };
                let ghost before = self.tx_samples@;
                self.tx_samples.push_back(sample);
                proof {
                    assert forall|i: int, j: int|
                        0 <= i < j < self.tx_samples@.len() implies self.tx_samples@[i].timestamp_ms
                        < self.tx_samples@[j].timestamp_ms by {
                        if j < before.len() {
                            assert(before[i].timestamp_ms < before[j].timestamp_ms);
                        } else if i < before.len() && before.len() > 0 {
                            if i < before.len() - 1 {
                                assert(before[i].timestamp_ms < before[before.len()
                                    - 1].timestamp_ms);
                            }
                        }
                    }
                }
                if self.tx_samples.len() > SAMPLE_HISTORY_SIZE {
                    let ghost appended = self.tx_samples@;
                    let _ = self.tx_samples.pop_front();
                    proof {
                        assert(self.tx_samples@ =~= appended.drop_first());
                        assert forall|i: int, j: int|
                            0 <= i < j < self.tx_samples@.len() implies self.tx_samples@[i].timestamp_ms
                            < self.tx_samples@[j].timestamp_ms by {
                            assert(appended[i + 1].timestamp_ms < appended[j + 1].timestamp_ms);
                        }
                    }
                }
            }
        }
        proof {
            assert(self.tx_samples@ == spec_push_sample(
                samples0,
                m.tx_commits,
                m.tx_commits_timestamp_ms,
            ));
        }
        self.recompute_tps();
        self.latency_prev = self.metrics.latency_p99_ms;
        self.peers_prev = self.metrics.peer_count;
        self.metrics = m;
        self.last_update_ms = now_ms;
        self.last_error = None;
    }

    /// Recomputes throughput from the sample ring: shifts the current
    /// value into the previous one, raises the peak, and appends the
    /// capped sparkline entry.  No effect while fewer than two
    /// samples span a positive interval.
    fn recompute_tps(&mut self)
        requires
            old(self).wf(),
        ensures
            final(self).wf(),
            final(self).tps_milli == spec_tps_after(old(self).tx_samples@, old(self).tps_milli),
            final(self).tps_prev_milli == spec_tps_prev_after(
                old(self).tx_samples@,
                old(self).tps_milli,
                old(self).tps_prev_milli,
            ),
            final(self).tps_peak_milli == spec_tps_peak_after(
                old(self).tx_samples@,
                old(self).tps_peak_milli,
            ),
            final(self).tps_history@ == spec_history_after(
                old(self).tps_history@,
                old(self).tx_samples@,
            ),
            final(self).tx_samples == old(self).tx_samples,
            final(self).metrics == old(self).metrics,
            final(self).rpc_data == old(self).rpc_data,
            final(self).system == old(self).system,
            final(self).last_update_ms == old(self).last_update_ms,
            final(self).last_block_time_ms == old(self).last_block_time_ms,
            final(self).last_block_number == old(self).last_block_number,
            final(self).latency_prev == old(self).latency_prev,
            final(self).peers_prev == old(self).peers_prev,
            final(self).net_rx_prev == old(self).net_rx_prev,
            final(self).net_tx_prev == old(self).net_tx_prev,
            final(self).net_rx_rate == old(self).net_rx_rate,
            final(self).net_tx_rate == old(self).net_tx_rate,
            final(self).last_error == old(self).last_error,
            final(self).theme == old(self).theme,
    {
        let len = self.tx_samples.len();
        if len < 2 {
            return ;
        }
        let oldest = self.tx_samples[0];
        let newest = self.tx_samples[len - 1];
        let tx_delta = if newest.tx_commits >= oldest.tx_commits {
            newest.tx_commits - oldest.tx_commits
        } else {
            0
        };
        proof {
            assert(oldest.timestamp_ms < newest.timestamp_ms);
        }
        let dt = newest.timestamp_ms - oldest.timestamp_ms;
        let v = (tx_delta as u128) * 1000000 / (dt as u128);
        let tps = if v > u64::MAX as u128 {
            u64::MAX
        } else {
            v as u64
        };
        self.tps_prev_milli = self.tps_milli;
        self.tps_milli = tps;
        if tps > self.tps_peak_milli {
            self.tps_peak_milli = tps;
        }
        let capped = if tps > 10000000 {
            10000000
        } else {
            tps
        };
        let entry = capped / 1000;
        self.tps_history.push_back(entry);
        if self.tps_history.len() > TPS_HISTORY_SIZE {
            let ghost appended = self.tps_history@;
            let _ = self.tps_history.pop_front();
            proof {
                assert(self.tps_history@ =~= appended.drop_first());
            }
        }
    }

    /// Ingests a chain snapshot at time `now_ms`: a window head newer
    /// than any block seen refreshes the last-block instant, and the
    /// snapshot replaces the stored one wholesale.
    pub fn update_rpc(&mut self, rpc_data: RpcData, now_ms: u64)
        requires
            old(self).wf(),
            rpc_data_wf(rpc_data),
        ensures
            final(self).wf(),
            spec_rpc_step(*old(self), rpc_data, now_ms, *final(self)),
    {
        if rpc_data.block_number > self.last_block_number {
            self.last_block_time_ms = Some(now_ms);
            self.last_block_number = rpc_data.block_number;
        }
        self.rpc_data = rpc_data;
    }

    /// Ingests a host snapshot: byte rates are derived from the
    /// counter deltas over the fixed five-second probe interval, only
    /// when the counter moved forward (a reset leaves the old rate).
    pub fn update_system(&mut self, system: SystemData)
        requires
            old(self).wf(),
        ensures
            final(self).wf(),
            spec_system_step(*old(self), system, *final(self)),
    {
        if self.net_rx_prev > 0 && system.net_rx_bytes > self.net_rx_prev {
            self.net_rx_rate = (system.net_rx_bytes - self.net_rx_prev) / 5;
        }
        if self.net_tx_prev > 0 && system.net_tx_bytes > self.net_tx_prev {
            self.net_tx_rate = (system.net_tx_bytes - self.net_tx_prev) / 5;
        }
        self.net_rx_prev = system.net_rx_bytes;
        self.net_tx_prev = system.net_tx_bytes;
        self.system = system;
    }

    /// Records the most recent failure; the next successful metrics
    /// update clears it.
    pub fn set_error(&mut self, error: String)
        requires
            old(self).wf(),
        ensures
            final(self).wf(),
            final(self).last_error == Some(error),
            spec_error_step(*old(self), error@, *final(self)),
    {
        self.last_error = Some(error);
    }
}

/// Pulse brightness in thousandths: full at a new-block instant,
/// fading linearly to zero over the next second, zero before any
/// block and after the fade.
pub open spec fn spec_pulse(last: Option<u64>, now: u64) -> u32 {
    match last {
        None => 0,
        Some(t) => {
            let e = if now >= t {
                now - t
            } else {
                0
            };
            if e >= PULSE_FADE_MS {
                0
            } else {
                (PULSE_FADE_MS - e) as u32
            }
        },
    }
}

/// A three-valued trend: 1 when the current value exceeds the
/// previous by at least the noise threshold, -1 when it falls short
/// by at least the threshold, else 0; the sign shows exactly at the
/// boundary.
pub open spec fn spec_trend(current: u64, prev: u64, noise: u64) -> i8 {
    if current >= prev + noise {
        1i8
    } else if current + noise <= prev {
        -1i8
    } else {
        0i8
    }
}

/// The bandwidth display text for a byte-per-second rate: one
/// decimal of GB/s or MB/s (rounded half up), whole KB/s, or plain
/// B/s.
pub open spec fn spec_format_bandwidth(v: int) -> Seq<char> {
    if v >= 1000000000 {
        let tenths = (v + 50000000) / 100000000;
        spec_dec_digits(tenths / 10) + seq!['.'] + seq![dec_digit_char(tenths % 10)] + "GB/s"@
    } else if v >= 1000000 {
        let tenths = (v + 50000) / 100000;
        spec_dec_digits(tenths / 10) + seq!['.'] + seq![dec_digit_char(tenths % 10)] + "MB/s"@
    } else if v >= 1000 {
        spec_dec_digits((v + 500) / 1000) + "KB/s"@
    } else {
        spec_dec_digits(v) + "B/s"@
    }
}

impl AppState {
    /// Milliseconds since the last new block, if one was ever seen.
    pub fn time_since_last_block(&self, now_ms: u64) -> (r: Option<u64>)
        ensures
            match self.last_block_time_ms {
                Some(t) => r == Some(
                    (if now_ms >= t {
                        now_ms - t
                    } else {
                        0
                    }) as u64,
                ),
                None => r is None,
            },
    {
        match self.last_block_time_ms {
            Some(t) => Some(
                if now_ms >= t {
                    now_ms - t
                } else {
                    0
                },
            ),
            None => None,
        }
    }

    /// The best-known head: the RPC head when present, else the
    /// metrics ledger height.
    pub fn block_height(&self) -> (r: u64)
        ensures
            r == if self.rpc_data.block_number > 0 {
                self.rpc_data.block_number
            } else {
                self.metrics.block_num
            },
    {
        if self.rpc_data.block_number > 0 {
            self.rpc_data.block_number
        } else {
            self.metrics.block_num
        }
    }

    /// The retained block window, newest first.
    pub fn recent_blocks(&self) -> (r: &Vec<Block>)
        ensures
            r@ == self.rpc_data.recent_blocks@,
    {
        &self.rpc_data.recent_blocks
    }

    /// The sparkline entries, oldest first.
    pub fn tps_sparkline_data(&self) -> (r: Vec<u64>)
        ensures
            r@ == self.tps_history@,
    {
        let n = self.tps_history.len();
        let mut r: Vec<u64> = Vec::new();
        let mut i: usize = 0;
        while i < n
            invariant
                i <= n,
                n == self.tps_history@.len(),
                r@ == self.tps_history@.take(i as int),
            decreases n - i,
        {
            r.push(self.tps_history[i]);
            proof {
                assert(r@ =~= self.tps_history@.take(i + 1));
            }
            i = i + 1;
        }
        proof {
            assert(r@ =~= self.tps_history@);
        }
        r
    }

    /// `synced` once the metrics report at least 99.99 percent of the
    /// sync target, else `syncing`.
    pub fn sync_status(&self) -> (r: &'static str)
        ensures
            spec_sync_bp(self.metrics) >= 9999 ==> r@ == "synced"@,
            spec_sync_bp(self.metrics) < 9999 ==> r@ == "syncing"@,
    {
        if self.metrics.is_synced() {
            "synced"
        } else {
            "syncing"
        }
    }

    /// The peer-count health bucket.
    pub fn peer_health(&self) -> (r: &'static str)
        ensures
            self.metrics.peer_count == 0 ==> r@ == "no peers"@,
            1 <= self.metrics.peer_count <= 10 ==> r@ == "low"@,
            11 <= self.metrics.peer_count <= 50 ==> r@ == "ok"@,
            self.metrics.peer_count > 50 ==> r@ == "healthy"@,
    {
        let p = self.metrics.peer_count;
        if p == 0 {
            "no peers"
        } else if p <= 10 {
            "low"
        } else if p <= 50 {
            "ok"
        } else {
            "healthy"
        }
    }

    /// Pulse brightness at `now_ms`, in thousandths.
    pub fn pulse_intensity(&self, now_ms: u64) -> (r: u32)
        ensures
            r == spec_pulse(self.last_block_time_ms, now_ms),
    {
        match self.last_block_time_ms {
            Some(t) => {
                let e = if now_ms >= t {
                    now_ms - t
                } else {
                    0
                };
                if e >= PULSE_FADE_MS {
                    0
                } else {
                    (PULSE_FADE_MS - e) as u32
                }
            },
            None => 0,
        }
    }

    /// Throughput trend against the previous computation.
    pub fn tps_trend(&self) -> (r: i8)
        ensures
            r == spec_trend(self.tps_milli, self.tps_prev_milli, TPS_NOISE_MILLI),
    {
        if self.tps_milli >= self.tps_prev_milli && self.tps_milli - self.tps_prev_milli
            >= TPS_NOISE_MILLI {
            1
        } else if self.tps_prev_milli >= self.tps_milli && self.tps_prev_milli - self.tps_milli
            >= TPS_NOISE_MILLI {
            -1
        } else {
            0
        }
    }

    /// Latency trend: 1 worsening, -1 improving.
    pub fn latency_trend(&self) -> (r: i8)
        ensures
            r == spec_trend(self.metrics.latency_p99_ms, self.latency_prev, LATENCY_NOISE_MS),
    {
        let current = self.metrics.latency_p99_ms;
        if current >= self.latency_prev && current - self.latency_prev >= LATENCY_NOISE_MS {
            1
        } else if self.latency_prev >= current && self.latency_prev - current >= LATENCY_NOISE_MS {
            -1
        } else {
            0
        }
    }

    /// Peer-count trend.
    pub fn peers_trend(&self) -> (r: i8)
        ensures
            r == spec_trend(self.metrics.peer_count, self.peers_prev, PEERS_NOISE),
    {
        let current = self.metrics.peer_count;
        if current >= self.peers_prev && current - self.peers_prev >= PEERS_NOISE {
            1
        } else if self.peers_prev >= current && self.peers_prev - current >= PEERS_NOISE {
            -1
        } else {
            0
        }
    }

    /// A byte-per-second rate as display text.
    pub fn format_bandwidth(bytes_per_sec: u64) -> (r: String)
        ensures
            r@ == spec_format_bandwidth(bytes_per_sec as int),
    {
        let v = bytes_per_sec;
        let mut s = String::new();
        if v >= 1000000000 {
            let tenths = ((v as u128 + 50000000) / 100000000) as u64;
            push_dec_u64(&mut s, tenths / 10);
            s.append(".");
            push_dec_u64(&mut s, tenths % 10);
            s.append("GB/s");
            proof {
                reveal_strlit(".");
                assert(s@ =~= spec_format_bandwidth(v as int));
            }
        } else if v >= 1000000 {
            let tenths = (v + 50000) / 100000;
            push_dec_u64(&mut s, tenths / 10);
            s.append(".");
            push_dec_u64(&mut s, tenths % 10);
            s.append("MB/s");
            proof {
                reveal_strlit(".");
                assert(s@ =~= spec_format_bandwidth(v as int));
            }
        } else if v >= 1000 {
            push_dec_u64(&mut s, (v + 500) / 1000);
            s.append("KB/s");
            proof {
                assert(s@ =~= spec_format_bandwidth(v as int));
            }
        } else {
            push_dec_u64(&mut s, v);
            s.append("B/s");
            proof {
                assert(s@ =~= spec_format_bandwidth(v as int));
            }
        }
        s
    }

    /// Advances to the next theme, wrapping around.
    pub fn toggle_theme(&mut self)
        requires
            old(self).wf(),
        ensures
            final(self).wf(),
            final(self).theme == match old(self).theme {
                Theme::Gray => Theme::Light,
                Theme::Light => Theme::Monad,
                Theme::Monad => Theme::Matrix,
                Theme::Matrix => Theme::Ocean,
                Theme::Ocean => Theme::Christmas,
                Theme::Christmas => Theme::Gray,
            },
            final(self).metrics == old(self).metrics,
            final(self).rpc_data == old(self).rpc_data,
            final(self).system == old(self).system,
            final(self).tx_samples == old(self).tx_samples,
            final(self).tps_milli == old(self).tps_milli,
            final(self).tps_prev_milli == old(self).tps_prev_milli,
            final(self).tps_peak_milli == old(self).tps_peak_milli,
            final(self).tps_history == old(self).tps_history,
            final(self).last_update_ms == old(self).last_update_ms,
            final(self).last_block_time_ms == old(self).last_block_time_ms,
            final(self).last_block_number == old(self).last_block_number,
            final(self).latency_prev == old(self).latency_prev,
            final(self).peers_prev == old(self).peers_prev,
            final(self).net_rx_prev == old(self).net_rx_prev,
            final(self).net_tx_prev == old(self).net_tx_prev,
            final(self).net_rx_rate == old(self).net_rx_rate,
            final(self).net_tx_rate == old(self).net_tx_rate,
            final(self).last_error == old(self).last_error,
    {
        self.theme = match self.theme {
            Theme::Gray => Theme::Light,
            Theme::Light => Theme::Monad,
            Theme::Monad => Theme::Matrix,
            Theme::Matrix => Theme::Ocean,
            Theme::Ocean => Theme::Christmas,
            Theme::Christmas => Theme::Gray,
        };
    }

    /// The current theme's display name.
    pub fn theme_name(&self) -> (r: &'static str)
        ensures
            r@ == match self.theme {
                Theme::Gray => "gray"@,
                Theme::Light => "light"@,
                Theme::Monad => "monad"@,
                Theme::Matrix => "matrix"@,
                Theme::Ocean => "ocean"@,
                Theme::Christmas => "christmas"@,
            },
    {
        match self.theme {
            Theme::Gray => "gray",
            Theme::Light => "light",
            Theme::Monad => "monad",
            Theme::Matrix => "matrix",
            Theme::Ocean => "ocean",
            Theme::Christmas => "christmas",
        }
    }
}

/// One message from a producer: a snapshot, or the failure that took
/// its place.
pub enum DataUpdate {
    Metrics(Result<PrometheusMetrics, String>),
    Rpc(Result<RpcData, String>),
    System(Result<SystemData, String>),
}

impl AppState {
    /// Routes one arrival to its update, in arrival order, whatever
    /// the interleaving: a success applies its snapshot, a failure
    /// records a prefixed error message.
    pub fn apply_update(&mut self, update: DataUpdate, now_ms: u64)
        requires
            old(self).wf(),
            update matches DataUpdate::Rpc(d) ==> (d matches Ok(v) ==> rpc_data_wf(v)),
        ensures
            final(self).wf(),
            match update {
                DataUpdate::Metrics(res) => match res {
                    Ok(m) => spec_metrics_step(*old(self), m, now_ms, *final(self)),
                    Err(e) => spec_error_step(*old(self), "metrics: "@ + e@, *final(self)),
                },
                DataUpdate::Rpc(res) => match res {
                    Ok(d) => spec_rpc_step(*old(self), d, now_ms, *final(self)),
                    Err(e) => spec_error_step(*old(self), "rpc: "@ + e@, *final(self)),
                },
                DataUpdate::System(res) => match res {
                    Ok(d) => spec_system_step(*old(self), d, *final(self)),
                    Err(e) => spec_error_step(*old(self), "system: "@ + e@, *final(self)),
                },
            },
    {
        match update {
            DataUpdate::Metrics(res) => match res {
                Ok(m) => self.update_metrics(m, now_ms),
                Err(e) => {
                    let mut msg = "metrics: ".to_owned();
                    msg.append(e.as_str());
                    self.set_error(msg);
                },
            },
            DataUpdate::Rpc(res) => match res {
                Ok(d) => self.update_rpc(d, now_ms),
                Err(e) => {
                    let mut msg = "rpc: ".to_owned();
                    msg.append(e.as_str());
                    self.set_error(msg);
                },
            },
            DataUpdate::System(res) => match res {
                Ok(d) => self.update_system(d),
                Err(e) => {
                    let mut msg = "system: ".to_owned();
                    msg.append(e.as_str());
                    self.set_error(msg);
                },
            },
        }
    }
}

/// Feeding the same counter reading twice changes nothing: the
/// repeated sample is not admitted, and recomputing over unchanged
/// samples returns the throughput already held.
pub proof fn lemma_tps_idempotent(samples: Seq<TxSample>, tx: u64, ts: u64, tps0: u64)
    ensures
        ({
            let s1 = spec_push_sample(samples, tx, ts);
            let t1 = spec_tps_after(s1, tps0);
            let s2 = spec_push_sample(s1, tx, ts);
            s2 == s1 && spec_tps_after(s2, t1) == t1
        }),
{
    let s1 = spec_push_sample(samples, tx, ts);
    if ts > 0 && (samples.len() == 0 || ts > samples.last().timestamp_ms) {
        let appended = samples.push(TxSample { tx_commits: tx, timestamp_ms: ts });
        assert(appended.last().timestamp_ms == ts);
        if appended.len() > SAMPLE_HISTORY_SIZE {
            assert(s1 == appended.drop_first());
            assert(s1.last() == appended.last());
        }
        assert(s1.len() > 0 && s1.last().timestamp_ms == ts);
    }
}

/// At a new-block instant the pulse is at full brightness.
pub proof fn lemma_pulse_reset(t: u64)
    ensures
        spec_pulse(Some(t), t) == PULSE_FADE_MS,
{
}

/// Within the fade window the pulse strictly decreases with time,
/// reaching zero exactly when the window closes.
pub proof fn lemma_pulse_strictly_fades(t: u64, n1: u64, n2: u64)
    requires
        t <= n1 < n2 <= t + PULSE_FADE_MS,
    ensures
        spec_pulse(Some(t), n2) < spec_pulse(Some(t), n1),
        n2 == t + PULSE_FADE_MS ==> spec_pulse(Some(t), n2) == 0,
{
}

/// Once the fade window has passed, the pulse stays at zero.
pub proof fn lemma_pulse_clamped(t: u64, now: u64)
    requires
        now >= t + PULSE_FADE_MS,
    ensures
        spec_pulse(Some(t), now) == 0,
{
}

} // verus!
