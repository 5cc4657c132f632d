//! Prometheus-style exposition parsing and the metrics snapshot.
//!
//! A payload is read line by line: blank lines and `#` comments are
//! skipped, labels between braces are ignored, and a fixed set of
//! metric names is projected into [`PrometheusMetrics`] fields.
//! Malformed lines never fail the parse; they leave the snapshot
//! untouched.

use vstd::prelude::*;
use vstd::string::StrSliceExecFns;
use crate::num::{cap_u64, spec_parse_scaled, parse_scaled_chars};
use crate::text::{
    spec_find, spec_find_ws, spec_lines, spec_parse_u64, spec_tokens, find_char, lines_of,
    lemma_spec_find, lemma_find_ws_first, lemma_find_ws_none, parse_u64_chars, scan_non_space,
    str_to_chars, tokens_of, chars_eq_str,
};

verus! {

/// One point-in-time read of the scrape target.  All fields default
/// to zero until a line sets them.
#[derive(Clone, Copy, Debug, PartialEq, Eq, Structural)]
pub struct PrometheusMetrics {
    pub block_num: u64,
    pub tx_commits: u64,
    pub tx_commits_timestamp_ms: u64,
    pub peer_count: u64,
    pub statesync_progress: u64,
    pub statesync_target: u64,
    pub uptime_us: u64,
    pub latency_p99_ms: u64,
    pub pending_txs: u64,
    pub upstream_validators: u64,
}

pub open spec fn spec_default_metrics() -> PrometheusMetrics {
    PrometheusMetrics {
        block_num: 0,
        tx_commits: 0,
        tx_commits_timestamp_ms: 0,
        peer_count: 0,
        statesync_progress: 0,
        statesync_target: 0,
        uptime_us: 0,
        latency_p99_ms: 0,
        pending_txs: 0,
        upstream_validators: 0,
    }
}

impl Default for PrometheusMetrics {
    fn default() -> (r: Self)
        ensures
            r == spec_default_metrics(),
    {
        PrometheusMetrics {
            block_num: 0,
            tx_commits: 0,
            tx_commits_timestamp_ms: 0,
            peer_count: 0,
            statesync_progress: 0,
            statesync_target: 0,
            uptime_us: 0,
            latency_p99_ms: 0,
            pending_txs: 0,
            upstream_validators: 0,
        }
    }
}

/// State-sync progress in hundredths of a percent: 10000 means fully
/// synced; a zero target counts as fully synced.
pub open spec fn spec_sync_bp(m: PrometheusMetrics) -> u64 {
    if m.statesync_target == 0 {
        10000
    } else {
        cap_u64(m.statesync_progress * 10000 / m.statesync_target as int)
    }
}

impl PrometheusMetrics {
    /// Sync progress in hundredths of a percent (10000 = 100%).
    pub fn sync_percentage(&self) -> (r: u64)
        ensures
            r == spec_sync_bp(*self),
    {
        if self.statesync_target == 0 {
            10000
        } else {
            let v = (self.statesync_progress as u128) * 10000 / (self.statesync_target as u128);
            if v > u64::MAX as u128 {
                u64::MAX
            } else {
                v as u64
            }
        }
    }

    /// Synced means at least 99.99 percent of the sync target.
    pub fn is_synced(&self) -> (r: bool)
        ensures
            r == (spec_sync_bp(*self) >= 9999),
    {
        self.sync_percentage() >= 9999
    }
}

/// How one exposition line decomposes: the metric name, its value
/// truncated to an unsigned integer, and an optional millisecond
/// timestamp (0 when absent or unreadable).
///
/// With a label block, the name is everything before `{` and the
/// value starts after the first `}`; otherwise the name ends at the
/// first whitespace.  A line whose value does not read as a number is
/// no metric line at all.
pub open spec fn spec_parse_metric_line(s: Seq<char>) -> Option<(Seq<char>, u64, u64)> {
    match spec_find(s, '{') {
        Some(bp) => match spec_find(s, '}') {
            Some(ap) => spec_value_and_ts(s.take(bp), s.skip(ap + 1)),
            None => None,
        },
        None => match spec_find_ws(s) {
            Some(w) => spec_value_and_ts(s.take(w), s.skip(w + 1)),
            None => None,
        },
    }
}

/// Value and timestamp from the text after the name: the first token
/// must be a number; a second token is the timestamp if it reads as
/// an integer, 0 otherwise; further tokens are ignored.
pub open spec fn spec_value_and_ts(name: Seq<char>, rest: Seq<char>) -> Option<
    (Seq<char>, u64, u64),
> {
    let toks = spec_tokens(rest);
    if toks.len() == 0 {
        None
    } else {
        match spec_parse_scaled(toks[0], 0) {
            Some(v) => {
                let ts = if toks.len() >= 2 {
                    match spec_parse_u64(toks[1]) {
                        Some(t) => t,
                        None => 0,
                    }
                } else {
                    0
                };
                Some((name, v, ts))
            },
            None => None,
        }
    }
}

/// Char-level worker: returns the name's length (the name is always a
/// prefix of the line) with the value and timestamp.
fn parse_metric_line_chars(a: &[char]) -> (r: Option<(usize, u64, u64)>)
    ensures
        match r {
            Some((nl, v, ts)) => nl <= a@.len() && spec_parse_metric_line(a@) == Some(
                (a@.take(nl as int), v, ts),
            ),
            None => spec_parse_metric_line(a@) is None,
        },
{
    let n = a.len();
    proof {
        lemma_spec_find(a@, '{');
        lemma_spec_find(a@, '}');
    }
    let (name_len, rest_lo): (usize, usize) = match find_char(a, '{') {
        Some(bp) => {
            match find_char(a, '}') {
                Some(ap) => (bp, ap + 1),
                None => {
                    return None;
                },
            }
        },
        None => {
            let w = scan_non_space(a, 0);
            if w == n {
                proof {
                    lemma_find_ws_none(a@);
                }
                return None;
            }
            proof {
                lemma_find_ws_first(a@, w as int);
            }
            (w, w + 1)
        },
    };
    let rest = &a[rest_lo..n];
    proof {
        assert(rest@ =~= a@.skip(rest_lo as int));
    }
    let toks = tokens_of(rest);
    if toks.len() == 0 {
        return None;
    }
    let v = match parse_scaled_chars(toks[0].as_slice(), 0) {
        Some(v) => v,
        None => {
            return None;
        },
    };
    let ts: u64 = if toks.len() >= 2 {
        match parse_u64_chars(toks[1].as_slice()) {
            Some(t) => t,
            None => 0,
        }
    } else {
        0
    };
    proof {
        assert(a@.take(name_len as int) =~= a@.subrange(0, name_len as int));
    }
    Some((name_len, v, ts))
}

/// Splits one exposition line into name, integer value and timestamp.
pub fn parse_metric_line(line: &str) -> (r: Option<(&str, u64, u64)>)
    ensures
        match r {
            Some((nm, v, ts)) => spec_parse_metric_line(line@) == Some((nm@, v, ts)),
            None => spec_parse_metric_line(line@) is None,
        },
{
    let chars = str_to_chars(line);
    match parse_metric_line_chars(chars.as_slice()) {
        Some((nl, v, ts)) => {
            let name = line.substring_char(0, nl);
            proof {
                assert(name@ == line@.subrange(0, nl as int));
                assert(line@.take(nl as int) =~= line@.subrange(0, nl as int));
            }
            Some((name, v, ts))
        },
        None => None,
    }
}

/// The metric names that are projected into the snapshot.
pub open spec fn is_tracked_metric(name: Seq<char>) -> bool {
    ||| name == "monad_execution_ledger_block_num"@
    ||| name == "monad_execution_ledger_num_tx_commits"@
    ||| name == "monad_peer_disc_num_peers"@
    ||| name == "monad_statesync_progress_estimate"@
    ||| name == "monad_statesync_last_target"@
    ||| name == "monad_total_uptime_us"@
    ||| name == "monad_bft_raptorcast_udp_secondary_broadcast_latency_p99_ms"@
    ||| name == "monad_bft_txpool_pool_tracked_txs"@
    ||| name == "monad_peer_disc_num_upstream_validators"@
}

/// Effect of one line on the snapshot: blank lines, comments,
/// malformed lines and unknown names change nothing.
pub open spec fn spec_apply_line(m: PrometheusMetrics, line: Seq<char>) -> PrometheusMetrics {
    if line.len() == 0 || line[0] == '#' {
        m
    } else {
        match spec_parse_metric_line(line) {
            Some((name, v, ts)) => {
                if name == "monad_execution_ledger_block_num"@ {
                    PrometheusMetrics { block_num: v, ..m }
                } else if name == "monad_execution_ledger_num_tx_commits"@ {
                    PrometheusMetrics { tx_commits: v, tx_commits_timestamp_ms: ts, ..m }
                } else if name == "monad_peer_disc_num_peers"@ {
                    PrometheusMetrics { peer_count: v, ..m }
                } else if name == "monad_statesync_progress_estimate"@ {
                    PrometheusMetrics { statesync_progress: v, ..m }
                } else if name == "monad_statesync_last_target"@ {
                    PrometheusMetrics { statesync_target: v, ..m }
                } else if name == "monad_total_uptime_us"@ {
                    PrometheusMetrics { uptime_us: v, ..m }
                } else if name == "monad_bft_raptorcast_udp_secondary_broadcast_latency_p99_ms"@ {
                    PrometheusMetrics { latency_p99_ms: v, ..m }
                } else if name == "monad_bft_txpool_pool_tracked_txs"@ {
                    PrometheusMetrics { pending_txs: v, ..m }
                } else if name == "monad_peer_disc_num_upstream_validators"@ {
                    PrometheusMetrics { upstream_validators: v, ..m }
                } else {
                    m
                }
            },
            None => m,
        }
    }
}

/// A line without a recognized metric name leaves the snapshot as it
/// was, whatever else it holds.
pub proof fn lemma_unknown_metric_ignored(m: PrometheusMetrics, line: Seq<char>)
    requires
        match spec_parse_metric_line(line) {
            Some(t) => !is_tracked_metric(t.0),
            None => true,
        },
    ensures
        spec_apply_line(m, line) == m,
{
}

fn apply_line(m: PrometheusMetrics, a: &[char]) -> (r: PrometheusMetrics)
    ensures
        r == spec_apply_line(m, a@),
{
    if a.len() == 0 {
        return m;
    }
    if a[0] == '#' {
        return m;
    }
    match parse_metric_line_chars(a) {
        None => m,
        Some((nl, v, ts)) => {
            let name = &a[0..nl];
            proof {
                assert(name@ =~= a@.take(nl as int));
            }
            let mut r = m;
            if chars_eq_str(name, "monad_execution_ledger_block_num") {
                r.block_num = v;
            } else if chars_eq_str(name, "monad_execution_ledger_num_tx_commits") {
                r.tx_commits = v;
                r.tx_commits_timestamp_ms = ts;
            } else if chars_eq_str(name, "monad_peer_disc_num_peers") {
                r.peer_count = v;
            } else if chars_eq_str(name, "monad_statesync_progress_estimate") {
                r.statesync_progress = v;
            } else if chars_eq_str(name, "monad_statesync_last_target") {
                r.statesync_target = v;
            } else if chars_eq_str(name, "monad_total_uptime_us") {
                r.uptime_us = v;
            } else if chars_eq_str(
                name,
                "monad_bft_raptorcast_udp_secondary_broadcast_latency_p99_ms",
            ) {
                r.latency_p99_ms = v;
            } else if chars_eq_str(name, "monad_bft_txpool_pool_tracked_txs") {
                r.pending_txs = v;
            } else if chars_eq_str(name, "monad_peer_disc_num_upstream_validators") {
                r.upstream_validators = v;
            }
            r
        },
    }
}

/// The snapshot a whole payload parses to: every line applied in
/// order, starting from the all-zero snapshot.
pub open spec fn spec_parse_metrics_rec(m: PrometheusMetrics, lines: Seq<Seq<char>>) -> PrometheusMetrics
    decreases lines.len(),
{
    if lines.len() == 0 {
        m
    } else {
        spec_parse_metrics_rec(spec_apply_line(m, lines[0]), lines.drop_first())
    }
}

pub open spec fn spec_parse_metrics(body: Seq<char>) -> PrometheusMetrics {
    spec_parse_metrics_rec(spec_default_metrics(), spec_lines(body))
}

/// Parses a whole exposition payload.  Parsing never fails: lines
/// that cannot be read are skipped and missing metrics stay zero.
pub fn parse_metrics(body: &str) -> (m: PrometheusMetrics)
    ensures
        m == spec_parse_metrics(body@),
{
    let chars = str_to_chars(body);
    let lines = lines_of(chars.as_slice());
    let nl = lines.len();
    let ghost lseq = spec_lines(body@);
    let mut m = PrometheusMetrics::default();
    let mut i: usize = 0;
    proof {
        assert(lseq.skip(0) =~= lseq);
    }
    while i < nl
        invariant
            i <= nl,
            nl == lseq.len(),
            lseq == spec_lines(chars@),
            chars@ == body@,
            lines@.len() == nl,
            forall|k: int| 0 <= k < nl ==> #[trigger] lines@[k]@ == lseq[k],
            spec_parse_metrics(body@) == spec_parse_metrics_rec(m, lseq.skip(i as int)),
        decreases nl - i,
    {
        m = apply_line(m, lines[i].as_slice());
        proof {
            assert(lseq.skip(i as int)[0] == lseq[i as int]);
            assert(lseq.skip(i as int).drop_first() =~= lseq.skip(i + 1));
        }
        i = i + 1;
    }
    proof {
        assert(lseq.skip(nl as int) =~= Seq::<Seq<char>>::empty());
    }
    m
}

} // verus!
