//! Host and process status: the system snapshot, its derived
//! accessors, and the parsers for storage-tool output, the service
//! manager's timestamp, and the host pseudo-files.
//!
//! Percentages and gigabyte figures are carried in hundredths, so a
//! display layer can show one or two decimals without the library
//! ever touching floating point.

use vstd::prelude::*;
use vstd::string::StringExecFns;
use crate::fmt::{push_dec_u64, spec_dec_digits};
use crate::text::{
    spec_find, spec_lines, spec_parse_u64, spec_parsed_u32s, spec_parsed_u64s, spec_starts_with,
    spec_contains, spec_split, spec_tokens, spec_trim, find_char, lemma_spec_find, lines_of,
    parse_u32_chars, parse_u64_chars, split_char, starts_with_str, str_to_chars, tokens_of,
    trim_chars, contains_str, chars_eq_str,
};
use crate::num::{spec_parse_scaled, parse_scaled_chars};

verus! {

/// Host and process status, each probe best-effort: fields stay at
/// their defaults when a probe fails.
#[derive(Clone, Debug)]
pub struct SystemData {
    /// Storage capacity in hundredths of a GB.
    pub disk_capacity_cgb: u64,
    /// Storage used in hundredths of a GB.
    pub disk_used_cgb: u64,
    /// Storage used in hundredths of a percent.
    pub disk_used_cpct: u64,
    pub history_count: u64,
    pub history_earliest: u64,
    pub history_latest: u64,
    pub latest_finalized: u64,
    pub latest_verified: u64,
    pub service_bft: bool,
    pub service_execution: bool,
    pub service_rpc: bool,
    /// Chain head as a third-party endpoint sees it; 0 until known.
    pub external_block: u64,
    /// Memory used in hundredths of a percent.
    pub memory_used_cpct: u64,
    pub memory_used_kb: u64,
    pub memory_total_kb: u64,
    /// One-shot CPU busy share in hundredths of a percent.
    pub cpu_usage_cpct: u64,
    pub net_rx_bytes: u64,
    pub net_tx_bytes: u64,
    pub node_id: String,
    /// Service activation time, seconds since the epoch; 0 if unknown.
    pub service_started_at: u64,
}

pub open spec fn spec_default_system(d: SystemData) -> bool {
    d.disk_capacity_cgb == 0 && d.disk_used_cgb == 0 && d.disk_used_cpct == 0 && d.history_count
        == 0 && d.history_earliest == 0 && d.history_latest == 0 && d.latest_finalized == 0
        && d.latest_verified == 0 && !d.service_bft && !d.service_execution && !d.service_rpc
        && d.external_block == 0 && d.memory_used_cpct == 0 && d.memory_used_kb == 0
        && d.memory_total_kb == 0 && d.cpu_usage_cpct == 0 && d.net_rx_bytes == 0
        && d.net_tx_bytes == 0 && d.node_id@.len() == 0 && d.service_started_at == 0
}

impl Default for SystemData {
    fn default() -> (r: Self)
        ensures
            spec_default_system(r),
    {
        SystemData {
            disk_capacity_cgb: 0,
            disk_used_cgb: 0,
            disk_used_cpct: 0,
            history_count: 0,
            history_earliest: 0,
            history_latest: 0,
            latest_finalized: 0,
            latest_verified: 0,
            service_bft: false,
            service_execution: false,
            service_rpc: false,
            external_block: 0,
            memory_used_cpct: 0,
            memory_used_kb: 0,
            memory_total_kb: 0,
            cpu_usage_cpct: 0,
            net_rx_bytes: 0,
            net_tx_bytes: 0,
            node_id: String::new(),
            service_started_at: 0,
        }
    }
}

/// Drift against the external head: 0 while no external head has
/// been observed, otherwise exactly `external - local`, clamped into
/// `i64`.
pub open spec fn spec_block_difference(d: SystemData, local_block: u64) -> i64 {
    if d.external_block == 0 {
        0
    } else {
        let diff = d.external_block as int - local_block as int;
        if diff > i64::MAX {
            i64::MAX
        } else if diff < i64::MIN {
            i64::MIN
        } else {
            diff as i64
        }
    }
}

impl SystemData {
    /// Drift of the local head against the externally observed one.
    pub fn block_difference(&self, local_block: u64) -> (r: i64)
        ensures
            r == spec_block_difference(*self, local_block),
            self.external_block == 0 ==> r == 0,
    {
        if self.external_block == 0 {
            0
        } else {
            let diff: i128 = self.external_block as i128 - local_block as i128;
            if diff > i64::MAX as i128 {
                i64::MAX
            } else if diff < i64::MIN as i128 {
                i64::MIN
            } else {
                diff as i64
            }
        }
    }

    /// How far finalization trails the retained tip, never negative.
    pub fn finalized_lag(&self) -> (r: u64)
        ensures
            r == if self.history_latest >= self.latest_finalized {
                self.history_latest - self.latest_finalized
            } else {
                0
            },
    {
        if self.history_latest >= self.latest_finalized {
            self.history_latest - self.latest_finalized
        } else {
            0
        }
    }

    /// How far verification trails the retained tip, never negative.
    pub fn verified_lag(&self) -> (r: u64)
        ensures
            r == if self.history_latest >= self.latest_verified {
                self.history_latest - self.latest_verified
            } else {
                0
            },
    {
        if self.history_latest >= self.latest_verified {
            self.history_latest - self.latest_verified
        } else {
            0
        }
    }

    /// A field-for-field copy.
    pub fn duplicate(&self) -> (r: SystemData)
        ensures
            r == *self,
    {
        SystemData {
            disk_capacity_cgb: self.disk_capacity_cgb,
            disk_used_cgb: self.disk_used_cgb,
            disk_used_cpct: self.disk_used_cpct,
            history_count: self.history_count,
            history_earliest: self.history_earliest,
            history_latest: self.history_latest,
            latest_finalized: self.latest_finalized,
            latest_verified: self.latest_verified,
            service_bft: self.service_bft,
            service_execution: self.service_execution,
            service_rpc: self.service_rpc,
            external_block: self.external_block,
            memory_used_cpct: self.memory_used_cpct,
            memory_used_kb: self.memory_used_kb,
            memory_total_kb: self.memory_total_kb,
            cpu_usage_cpct: self.cpu_usage_cpct,
            net_rx_bytes: self.net_rx_bytes,
            net_tx_bytes: self.net_tx_bytes,
            node_id: self.node_id.clone(),
            service_started_at: self.service_started_at,
        }
    }

    pub fn all_services_running(&self) -> (r: bool)
        ensures
            r == (self.service_bft && self.service_execution && self.service_rpc),
    {
        self.service_bft && self.service_execution && self.service_rpc
    }

    /// Time since the service's activation, as `3d 4h`, `4h 7m` or
    /// `7m`; a placeholder while the start time is unknown or lies in
    /// the future.
    pub fn uptime_since_restart(&self, now_secs: u64) -> (r: String)
        ensures
            r@ == spec_uptime_text(self.service_started_at, now_secs),
    {
        if self.service_started_at == 0 || now_secs < self.service_started_at {
            let s = "...".to_owned();
            return s;
        }
        let elapsed = now_secs - self.service_started_at;
        let days = elapsed / 86400;
        let hours = (elapsed % 86400) / 3600;
        let mins = (elapsed % 3600) / 60;
        let mut s = String::new();
        if days > 0 {
            push_dec_u64(&mut s, days);
            s.append("d ");
            push_dec_u64(&mut s, hours);
            s.append("h");
            proof {
                assert(s@ =~= spec_uptime_text(self.service_started_at, now_secs));
            }
        } else if hours > 0 {
            push_dec_u64(&mut s, hours);
            s.append("h ");
            push_dec_u64(&mut s, mins);
            s.append("m");
            proof {
                assert(s@ =~= spec_uptime_text(self.service_started_at, now_secs));
            }
        } else {
            push_dec_u64(&mut s, mins);
            s.append("m");
            proof {
                assert(s@ =~= spec_uptime_text(self.service_started_at, now_secs));
            }
        }
        s
    }
}

/// The uptime display text for a start time and the current time.
pub open spec fn spec_uptime_text(started: u64, now: u64) -> Seq<char> {
    if started == 0 || now < started {
        "..."@
    } else {
        let elapsed = now - started;
        let days = elapsed / 86400;
        let hours = (elapsed % 86400) / 3600;
        let mins = (elapsed % 3600) / 60;
        if days > 0 {
            spec_dec_digits(days) + "d "@ + spec_dec_digits(hours) + "h"@
        } else if hours > 0 {
            spec_dec_digits(hours) + "h "@ + spec_dec_digits(mins) + "m"@
        } else {
            spec_dec_digits(mins) + "m"@
        }
    }
}

/// Days in the months before month `m`, in a common year.
pub open spec fn spec_days_before_month(m: u32) -> int {
    if m == 1 {
        0
    } else if m == 2 {
        31
    } else if m == 3 {
        59
    } else if m == 4 {
        90
    } else if m == 5 {
        120
    } else if m == 6 {
        151
    } else if m == 7 {
        181
    } else if m == 8 {
        212
    } else if m == 9 {
        243
    } else if m == 10 {
        273
    } else if m == 11 {
        304
    } else if m == 12 {
        334
    } else {
        0
    }
}

/// Seconds since the epoch for a local calendar date and time, by the
/// deliberately simplified rule the dashboard uses: 365-day years
/// with a rough leap-year count, and a fixed one-hour zone offset
/// subtracted.  Good enough for an uptime display, not a calendar.
pub open spec fn spec_epoch_approx(y: u32, mo: u32, d: u32, h: u32, mi: u32, se: u32) -> u64 {
    let years = if y >= 1970 {
        y - 1970
    } else {
        0
    };
    let leap = (years + 1) / 4;
    let days0 = years * 365 + leap + spec_days_before_month(mo) + d;
    let days = if days0 >= 1 {
        days0 - 1
    } else {
        0
    };
    let secs = days * 86400 + h * 3600 + mi * 60 + se;
    let adjusted = if secs >= 3600 {
        secs - 3600
    } else {
        0
    };
    adjusted as u64
}

/// What the timestamp line of the service manager parses to: the text
/// between the first `=` and the next, taken as
/// `Weekday YYYY-MM-DD HH:MM:SS TZ` and turned into an approximate
/// epoch second.  `None` when the field is missing, empty, `n/a`, or
/// not in that shape.
pub open spec fn spec_parse_systemd_timestamp(s: Seq<char>) -> Option<u64> {
    match spec_find(s, '=') {
        None => None,
        Some(e) => {
            let after = s.skip(e + 1);
            let piece = match spec_find(after, '=') {
                Some(e2) => after.take(e2),
                None => after,
            };
            let ts = spec_trim(piece);
            if ts.len() == 0 || ts == "n/a"@ {
                None
            } else {
                let parts = spec_tokens(ts);
                if parts.len() < 3 {
                    None
                } else {
                    let date_nums = spec_parsed_u32s(spec_split(parts[1], '-'));
                    let time_nums = spec_parsed_u32s(spec_split(parts[2], ':'));
                    if date_nums.len() != 3 || time_nums.len() != 3 {
                        None
                    } else {
                        Some(
                            spec_epoch_approx(
                                date_nums[0],
                                date_nums[1],
                                date_nums[2],
                                time_nums[0],
                                time_nums[1],
                                time_nums[2],
                            ),
                        )
                    }
                }
            }
        },
    }
}

/// Reads the numbers that appear as `u32`, in order, out of pieces of
/// text.
fn parsed_u32s(pieces: &Vec<Vec<char>>) -> (r: Vec<u32>)
    ensures
        r@ == spec_parsed_u32s(Seq::new(pieces@.len(), |i: int| pieces@[i]@)),
{
    let ghost views = Seq::new(pieces@.len(), |i: int| pieces@[i]@);
    let n = pieces.len();
    let mut r: Vec<u32> = Vec::new();
    let mut i: usize = 0;
    proof {
        assert(views.skip(0) =~= views);
    }
    while i < n
        invariant
            i <= n,
            n == pieces@.len(),
            views == Seq::new(pieces@.len(), |k: int| pieces@[k]@),
            r@ + spec_parsed_u32s(views.skip(i as int)) == spec_parsed_u32s(views),
        decreases n - i,
    {
        proof {
            assert(views.skip(i as int)[0] == views[i as int]);
            assert(views.skip(i as int).drop_first() =~= views.skip(i + 1));
        }
        match parse_u32_chars(pieces[i].as_slice()) {
            Some(v) => {
                r.push(v);
                proof {
                    assert(r@ + spec_parsed_u32s(views.skip(i + 1)) =~= spec_parsed_u32s(views));
                }
            },
            None => {},
        }
        i = i + 1;
    }
    proof {
        assert(views.skip(n as int) =~= Seq::<Seq<char>>::empty());
        assert(r@ =~= spec_parsed_u32s(views));
    }
    r
}

/// Parses the service manager's activation-timestamp line.
pub fn parse_systemd_timestamp(output: &str) -> (r: Option<u64>)
    ensures
        r == spec_parse_systemd_timestamp(output@),
{
    let chars = str_to_chars(output);
    proof {
        lemma_spec_find(chars@, '=');
    }
    let e = match find_char(chars.as_slice(), '=') {
        Some(e) => e,
        None => {
            return None;
        },
    };
    let n = chars.len();
    let after = &chars.as_slice()[e + 1..n];
    proof {
        assert(after@ =~= chars@.skip(e + 1));
        lemma_spec_find(after@, '=');
    }
    let piece = match find_char(after, '=') {
        Some(e2) => &after[0..e2],
        None => after,
    };
    proof {
        match spec_find(after@, '=') {
            Some(e2) => {
                assert(piece@ =~= after@.take(e2));
            },
            None => {},
        }
    }
    let ts = trim_chars(piece);
    if ts.len() == 0 {
        return None;
    }
    if chars_eq_str(ts.as_slice(), "n/a") {
        return None;
    }
    let parts = tokens_of(ts.as_slice());
    if parts.len() < 3 {
        return None;
    }
    let date_pieces = split_char(parts[1].as_slice(), '-');
    let time_pieces = split_char(parts[2].as_slice(), ':');
    let ghost date_views = Seq::new(date_pieces@.len(), |i: int| date_pieces@[i]@);
    let ghost time_views = Seq::new(time_pieces@.len(), |i: int| time_pieces@[i]@);
    proof {
        assert(date_views =~= spec_split(parts@[1]@, '-'));
        assert(time_views =~= spec_split(parts@[2]@, ':'));
    }
    let date_nums = parsed_u32s(&date_pieces);
    let time_nums = parsed_u32s(&time_pieces);
    if date_nums.len() != 3 || time_nums.len() != 3 {
        return None;
    }
    Some(
        epoch_approx(
            date_nums[0],
            date_nums[1],
            date_nums[2],
            time_nums[0],
            time_nums[1],
            time_nums[2],
        ),
    )
}

/// The simplified calendar arithmetic behind the timestamp parser.
fn epoch_approx(y: u32, mo: u32, d: u32, h: u32, mi: u32, se: u32) -> (r: u64)
    ensures
        r == spec_epoch_approx(y, mo, d, h, mi, se),
{
    let years: u64 = if y >= 1970 {
        (y - 1970) as u64
    } else {
        0
    };
    let leap: u64 = (years + 1) / 4;
    let dbm: u64 = if mo == 1 {
        0
    } else if mo == 2 {
        31
    } else if mo == 3 {
        59
    } else if mo == 4 {
        90
    } else if mo == 5 {
        120
    } else if mo == 6 {
        151
    } else if mo == 7 {
        181
    } else if mo == 8 {
        212
    } else if mo == 9 {
        243
    } else if mo == 10 {
        273
    } else if mo == 11 {
        304
    } else if mo == 12 {
        334
    } else {
        0
    };
    let days0: u64 = years * 365 + leap + dbm + d as u64;
    let days: u64 = if days0 >= 1 {
        days0 - 1
    } else {
        0
    };
    let secs: u64 = days * 86400 + (h as u64) * 3600 + (mi as u64) * 60 + se as u64;
    if secs >= 3600 {
        secs - 3600
    } else {
        0
    }
}

/// Every trailing `c` removed.
pub open spec fn spec_strip_trailing(s: Seq<char>, c: char) -> Seq<char>
    decreases s.len(),
{
    if s.len() > 0 && s.last() == c {
        spec_strip_trailing(s.drop_last(), c)
    } else {
        s
    }
}

proof fn lemma_strip_trailing_exact(s: Seq<char>, c: char, t: int)
    requires
        0 <= t <= s.len(),
        forall|j: int| t <= j < s.len() ==> s[j] == c,
        t == 0 || s[t - 1] != c,
    ensures
        spec_strip_trailing(s, c) == s.take(t),
    decreases s.len(),
{
    if t == s.len() {
        assert(s.take(t) =~= s);
    } else {
        lemma_strip_trailing_exact(s.drop_last(), c, t);
        assert(s.drop_last().take(t) =~= s.take(t));
    }
}

/// Copy of `a` with every trailing `c` removed.
fn strip_trailing(a: &[char], c: char) -> (v: Vec<char>)
    ensures
        v@ == spec_strip_trailing(a@, c),
{
    let n = a.len();
    let mut hi = n;
    while hi > 0
        invariant
            hi <= n,
            n == a@.len(),
            forall|j: int| hi <= j < n ==> a@[j] == c,
        decreases hi,
    {
        if a[hi - 1] != c {
            let v = vstd::slice::slice_to_vec(&a[0..hi]);
            proof {
                lemma_strip_trailing_exact(a@, c, hi as int);
                assert(v@ =~= a@.take(hi as int));
            }
            return v;
        }
        hi = hi - 1;
    }
    proof {
        lemma_strip_trailing_exact(a@, c, 0);
        assert(Seq::<char>::empty() =~= a@.take(0));
    }
    Vec::new()
}

/// A number, or 0 where the text does not read as one.
pub open spec fn spec_u64_or_0(s: Seq<char>) -> u64 {
    match spec_parse_u64(s) {
        Some(v) => v,
        None => 0,
    }
}

fn u64_or_0(a: &[char]) -> (r: u64)
    ensures
        r == spec_u64_or_0(a@),
{
    match parse_u64_chars(a) {
        Some(v) => v,
        None => 0,
    }
}

pub open spec fn spec_sat_mul_1024(v: u64) -> u64 {
    if v * 1024 > u64::MAX {
        u64::MAX
    } else {
        (v * 1024) as u64
    }
}

fn sat_mul_1024(v: u64) -> (r: u64)
    ensures
        r == spec_sat_mul_1024(v),
{
    match v.checked_mul(1024) {
        Some(x) => x,
        None => u64::MAX,
    }
}

/// Effect of the storage line `capacity unit  used unit  pct%` on the
/// snapshot: sizes are normalized to hundredths of a GB (terabytes
/// scaled up, megabytes down), each field only set when its number
/// reads.
pub open spec fn spec_apply_disk(d: SystemData, toks: Seq<Seq<char>>) -> SystemData {
    let d1 = match spec_parse_scaled(toks[0], 2) {
        Some(v) => SystemData {
            disk_capacity_cgb: if toks[1] == "Tb"@ {
                spec_sat_mul_1024(v)
            } else {
                v
            },
            ..d
        },
        None => d,
    };
    let d2 = match spec_parse_scaled(toks[2], 2) {
        Some(v) => SystemData {
            disk_used_cgb: if toks[3] == "Tb"@ {
                spec_sat_mul_1024(v)
            } else if toks[3] == "Mb"@ {
                v / 1024
            } else {
                v
            },
            ..d1
        },
        None => d1,
    };
    match spec_parse_scaled(spec_strip_trailing(toks[4], '%'), 2) {
        Some(v) => SystemData { disk_used_cpct: v, ..d2 },
        None => d2,
    }
}

/// Effect of one token of the retained-history line: `has N`,
/// `earliest is N`, `latest is N.` set their fields, unreadable
/// numbers count as 0.
pub open spec fn spec_apply_history_tok(d: SystemData, toks: Seq<Seq<char>>, i: int) -> SystemData {
    let d1 = if toks[i] == "has"@ && i + 1 < toks.len() {
        SystemData { history_count: spec_u64_or_0(toks[i + 1]), ..d }
    } else {
        d
    };
    let d2 = if toks[i] == "earliest"@ && i + 2 < toks.len() {
        SystemData { history_earliest: spec_u64_or_0(toks[i + 2]), ..d1 }
    } else {
        d1
    };
    if toks[i] == "latest"@ && i + 2 < toks.len() {
        SystemData { history_latest: spec_u64_or_0(spec_strip_trailing(toks[i + 2], '.')), ..d2 }
    } else {
        d2
    }
}

pub open spec fn spec_history_fold(d: SystemData, toks: Seq<Seq<char>>, i: int) -> SystemData
    decreases toks.len() - i,
{
    if i < 0 || i >= toks.len() {
        d
    } else {
        spec_history_fold(spec_apply_history_tok(d, toks, i), toks, i + 1)
    }
}

/// Effect of one token of the finality line: `finalized is N,` and
/// `verified is N,` set their fields.
pub open spec fn spec_apply_final_tok(d: SystemData, toks: Seq<Seq<char>>, i: int) -> SystemData {
    let d1 = if toks[i] == "finalized"@ && i + 2 < toks.len() {
        SystemData { latest_finalized: spec_u64_or_0(spec_strip_trailing(toks[i + 2], ',')), ..d }
    } else {
        d
    };
    if toks[i] == "verified"@ && i + 2 < toks.len() {
        SystemData { latest_verified: spec_u64_or_0(spec_strip_trailing(toks[i + 2], ',')), ..d1 }
    } else {
        d1
    }
}

pub open spec fn spec_final_fold(d: SystemData, toks: Seq<Seq<char>>, i: int) -> SystemData
    decreases toks.len() - i,
{
    if i < 0 || i >= toks.len() {
        d
    } else {
        spec_final_fold(spec_apply_final_tok(d, toks, i), toks, i + 1)
    }
}

/// Effect of one line of the storage tool's output: the three line
/// shapes are recognized by their markers, anything else changes
/// nothing.
pub open spec fn spec_apply_mpt_line(d: SystemData, line: Seq<char>) -> SystemData {
    let toks = spec_tokens(line);
    let d1 = if spec_contains(line, "Tb"@) && spec_contains(line, "Gb"@) && spec_contains(
        line,
        "%"@,
    ) && toks.len() >= 5 {
        spec_apply_disk(d, toks)
    } else {
        d
    };
    let d2 = if spec_contains(line, "MPT database has"@) && spec_contains(line, "history"@) {
        spec_history_fold(d1, toks, 0)
    } else {
        d1
    };
    if spec_contains(line, "Latest finalized is"@) {
        spec_final_fold(d2, toks, 0)
    } else {
        d2
    }
}

pub open spec fn spec_parse_mpt_rec(d: SystemData, lines: Seq<Seq<char>>) -> SystemData
    decreases lines.len(),
{
    if lines.len() == 0 {
        d
    } else {
        spec_parse_mpt_rec(spec_apply_mpt_line(d, lines[0]), lines.drop_first())
    }
}

/// What the storage tool's whole output does to the snapshot.
pub open spec fn spec_parse_mpt(d: SystemData, body: Seq<char>) -> SystemData {
    spec_parse_mpt_rec(d, spec_lines(body))
}

fn apply_history_tok(d: SystemData, toks: &Vec<Vec<char>>, i: usize) -> (r: SystemData)
    requires
        i < toks@.len(),
    ensures
        r == spec_apply_history_tok(d, Seq::new(toks@.len(), |k: int| toks@[k]@), i as int),
{
    let ghost views = Seq::new(toks@.len(), |k: int| toks@[k]@);
    let n = toks.len();
    let mut r = d;
    if chars_eq_str(toks[i].as_slice(), "has") && n >= 2 && i < n - 1 {
        r.history_count = u64_or_0(toks[i + 1].as_slice());
    }
    if chars_eq_str(toks[i].as_slice(), "earliest") && n >= 3 && i < n - 2 {
        r.history_earliest = u64_or_0(toks[i + 2].as_slice());
    }
    if chars_eq_str(toks[i].as_slice(), "latest") && n >= 3 && i < n - 2 {
        let stripped = strip_trailing(toks[i + 2].as_slice(), '.');
        r.history_latest = u64_or_0(stripped.as_slice());
    }
    r
}

fn apply_final_tok(d: SystemData, toks: &Vec<Vec<char>>, i: usize) -> (r: SystemData)
    requires
        i < toks@.len(),
    ensures
        r == spec_apply_final_tok(d, Seq::new(toks@.len(), |k: int| toks@[k]@), i as int),
{
    let n = toks.len();
    let mut r = d;
    if chars_eq_str(toks[i].as_slice(), "finalized") && n >= 3 && i < n - 2 {
        let stripped = strip_trailing(toks[i + 2].as_slice(), ',');
        r.latest_finalized = u64_or_0(stripped.as_slice());
    }
    if chars_eq_str(toks[i].as_slice(), "verified") && n >= 3 && i < n - 2 {
        let stripped = strip_trailing(toks[i + 2].as_slice(), ',');
        r.latest_verified = u64_or_0(stripped.as_slice());
    }
    r
}

fn apply_mpt_line(d: SystemData, line: &[char]) -> (r: SystemData)
    ensures
        r == spec_apply_mpt_line(d, line@),
{
    let toks = tokens_of(line);
    let ghost views = Seq::new(toks@.len(), |k: int| toks@[k]@);
    proof {
        assert(views =~= spec_tokens(line@));
    }
    let n = toks.len();
    let mut r = d;
    if contains_str(line, "Tb") && contains_str(line, "Gb") && contains_str(line, "%") && n >= 5 {
        match parse_scaled_chars(toks[0].as_slice(), 2) {
            Some(v) => {
                r.disk_capacity_cgb = if chars_eq_str(toks[1].as_slice(), "Tb") {
                    sat_mul_1024(v)
                } else {
                    v
                };
            },
            None => {},
        }
        match parse_scaled_chars(toks[2].as_slice(), 2) {
            Some(v) => {
                r.disk_used_cgb = if chars_eq_str(toks[3].as_slice(), "Tb") {
                    sat_mul_1024(v)
                } else if chars_eq_str(toks[3].as_slice(), "Mb") {
                    v / 1024
                } else {
                    v
                };
            },
            None => {},
        }
        let stripped = strip_trailing(toks[4].as_slice(), '%');
        match parse_scaled_chars(stripped.as_slice(), 2) {
            Some(v) => {
                r.disk_used_cpct = v;
            },
            None => {},
        }
        proof {
            assert(r == spec_apply_disk(d, views));
        }
    }
    if contains_str(line, "MPT database has") && contains_str(line, "history") {
        let ghost base = r;
        let mut i: usize = 0;
        while i < n
            invariant
                i <= n,
                n == toks@.len(),
                views == Seq::new(toks@.len(), |k: int| toks@[k]@),
                spec_history_fold(base, views, 0) == spec_history_fold(r, views, i as int),
            decreases n - i,
        {
            r = apply_history_tok(r, &toks, i);
            i = i + 1;
        }
    }
    if contains_str(line, "Latest finalized is") {
        let ghost base = r;
        let mut i: usize = 0;
        while i < n
            invariant
                i <= n,
                n == toks@.len(),
                views == Seq::new(toks@.len(), |k: int| toks@[k]@),
                spec_final_fold(base, views, 0) == spec_final_fold(r, views, i as int),
            decreases n - i,
        {
            r = apply_final_tok(r, &toks, i);
            i = i + 1;
        }
    }
    r
}

/// The second whitespace token of a line as a number, 0 when missing
/// or unreadable.
pub open spec fn spec_second_token_u64(line: Seq<char>) -> u64 {
    let toks = spec_tokens(line);
    if toks.len() >= 2 {
        spec_u64_or_0(toks[1])
    } else {
        0
    }
}

/// What `MemTotal:` and `MemAvailable:` lines of the memory
/// pseudo-file yield, in kB; a later matching line overwrites.
pub open spec fn spec_meminfo_rec(acc: (u64, u64), lines: Seq<Seq<char>>) -> (u64, u64)
    decreases lines.len(),
{
    if lines.len() == 0 {
        acc
    } else {
        let line = lines[0];
        let a1 = if spec_starts_with(line, "MemTotal:"@) {
            (spec_second_token_u64(line), acc.1)
        } else {
            acc
        };
        let a2 = if spec_starts_with(line, "MemAvailable:"@) {
            (a1.0, spec_second_token_u64(line))
        } else {
            a1
        };
        spec_meminfo_rec(a2, lines.drop_first())
    }
}

pub open spec fn spec_meminfo(body: Seq<char>) -> (u64, u64) {
    spec_meminfo_rec((0, 0), spec_lines(body))
}

/// Reads total and available memory, in kB, from the memory
/// pseudo-file's text.
pub fn parse_meminfo(meminfo: &str) -> (r: (u64, u64))
    ensures
        r == spec_meminfo(meminfo@),
{
    let chars = str_to_chars(meminfo);
    let lines = lines_of(chars.as_slice());
    let nl = lines.len();
    let ghost lseq = spec_lines(meminfo@);
    let mut total: u64 = 0;
    let mut avail: u64 = 0;
    let mut i: usize = 0;
    proof {
        assert(lseq.skip(0) =~= lseq);
    }
    while i < nl
        invariant
            i <= nl,
            nl == lseq.len(),
            lseq == spec_lines(chars@),
            chars@ == meminfo@,
            lines@.len() == nl,
            forall|k: int| 0 <= k < nl ==> #[trigger] lines@[k]@ == lseq[k],
            spec_meminfo(meminfo@) == spec_meminfo_rec((total, avail), lseq.skip(i as int)),
        decreases nl - i,
    {
        let line = lines[i].as_slice();
        if starts_with_str(line, "MemTotal:") {
            total = second_token_u64(line);
        }
        if starts_with_str(line, "MemAvailable:") {
            avail = second_token_u64(line);
        }
        proof {
            assert(lseq.skip(i as int)[0] == lseq[i as int]);
            assert(lseq.skip(i as int).drop_first() =~= lseq.skip(i + 1));
        }
        i = i + 1;
    }
    proof {
        assert(lseq.skip(nl as int) =~= Seq::<Seq<char>>::empty());
    }
    (total, avail)
}

fn second_token_u64(line: &[char]) -> (r: u64)
    ensures
        r == spec_second_token_u64(line@),
{
    let toks = tokens_of(line);
    if toks.len() >= 2 {
        u64_or_0(toks[1].as_slice())
    } else {
        0
    }
}

/// Memory figures derived from the pseudo-file's numbers: used share
/// in hundredths of a percent, used and total in kB.  All zero while
/// the total is unknown.
pub fn memory_stats(total_kb: u64, available_kb: u64) -> (r: (u64, u64, u64))
    ensures
        total_kb == 0 ==> r == (0u64, 0u64, 0u64),
        total_kb > 0 ==> ({
            let used = if total_kb >= available_kb {
                total_kb - available_kb
            } else {
                0
            };
            r.0 == used * 10000 / (total_kb as int) && r.1 == used && r.2 == total_kb
        }),
{
    if total_kb == 0 {
        return (0, 0, 0);
    }
    let used = if total_kb >= available_kb {
        total_kb - available_kb
    } else {
        0
    };
    let pct = ((used as u128) * 10000 / (total_kb as u128)) as u64;
    proof {
        assert(used as int * 10000 / (total_kb as int) <= 10000) by (nonlinear_arith)
            requires
                0 < total_kb,
                0 <= used <= total_kb,
        ;
    }
    (pct, used, total_kb)
}

pub open spec fn spec_sat_add(a: u64, b: u64) -> u64 {
    if a + b > u64::MAX {
        u64::MAX
    } else {
        (a + b) as u64
    }
}

fn sat_add(a: u64, b: u64) -> (r: u64)
    ensures
        r == spec_sat_add(a, b),
{
    match a.checked_add(b) {
        Some(v) => v,
        None => u64::MAX,
    }
}

/// Sum of a list of numbers, saturating at `u64::MAX`.
pub open spec fn spec_sum_sat(ns: Seq<u64>) -> u64
    decreases ns.len(),
{
    if ns.len() == 0 {
        0
    } else {
        spec_sat_add(spec_sum_sat(ns.drop_last()), ns.last())
    }
}

/// The one-shot CPU busy share, in hundredths of a percent, that the
/// first line of the scheduler pseudo-file yields: the complement of
/// `idle / total` over the aggregate counters, 0 when the line has
/// fewer than four numbers or a zero total.
pub open spec fn spec_cpu_cpct(body: Seq<char>) -> u64 {
    let lines = spec_lines(body);
    if lines.len() == 0 {
        0
    } else {
        let toks = spec_tokens(lines[0]);
        if toks.len() == 0 {
            0
        } else {
            let nums = spec_parsed_u64s(toks.drop_first());
            if nums.len() >= 4 {
                let total = spec_sum_sat(nums);
                if total > 0 {
                    let busy_share = nums[3] as int * 10000 / (total as int);
                    if busy_share > 10000 {
                        0
                    } else {
                        (10000 - busy_share) as u64
                    }
                } else {
                    0
                }
            } else {
                0
            }
        }
    }
}

/// Reads the numbers that appear as `u64`, in order, out of the
/// tokens from index `from` on.
fn parsed_u64s_from(toks: &Vec<Vec<char>>, from: usize) -> (r: Vec<u64>)
    requires
        from <= toks@.len(),
    ensures
        r@ == spec_parsed_u64s(Seq::new(toks@.len(), |i: int| toks@[i]@).skip(from as int)),
{
    let ghost views = Seq::new(toks@.len(), |i: int| toks@[i]@);
    let n = toks.len();
    let mut r: Vec<u64> = Vec::new();
    let mut i: usize = from;
    proof {
        assert(views.skip(from as int).skip(0) =~= views.skip(from as int));
    }
    while i < n
        invariant
            from <= i <= n,
            n == toks@.len(),
            views == Seq::new(toks@.len(), |k: int| toks@[k]@),
            r@ + spec_parsed_u64s(views.skip(i as int)) == spec_parsed_u64s(
                views.skip(from as int),
            ),
        decreases n - i,
    {
        proof {
            assert(views.skip(i as int)[0] == views[i as int]);
            assert(views.skip(i as int).drop_first() =~= views.skip(i + 1));
        }
        match parse_u64_chars(toks[i].as_slice()) {
            Some(v) => {
                r.push(v);
                proof {
                    assert(r@ + spec_parsed_u64s(views.skip(i + 1)) =~= spec_parsed_u64s(
                        views.skip(from as int),
                    ));
                }
            },
            None => {},
        }
        i = i + 1;
    }
    proof {
        assert(views.skip(n as int) =~= Seq::<Seq<char>>::empty());
        assert(r@ =~= spec_parsed_u64s(views.skip(from as int)));
    }
    r
}

fn sum_sat(ns: &Vec<u64>) -> (r: u64)
    ensures
        r == spec_sum_sat(ns@),
{
    let n = ns.len();
    let mut acc: u64 = 0;
    let mut i: usize = 0;
    proof {
        assert(ns@.take(0) =~= Seq::<u64>::empty());
    }
    while i < n
        invariant
            i <= n,
            n == ns@.len(),
            acc == spec_sum_sat(ns@.take(i as int)),
        decreases n - i,
    {
        proof {
            assert(ns@.take(i + 1).drop_last() =~= ns@.take(i as int));
            assert(ns@.take(i + 1).last() == ns@[i as int]);
        }
        acc = sat_add(acc, ns[i]);
        i = i + 1;
    }
    proof {
        assert(ns@.take(n as int) =~= ns@);
    }
    acc
}

/// Reads the CPU busy share from the scheduler pseudo-file's text.
pub fn parse_cpu_stat(stat: &str) -> (r: u64)
    ensures
        r == spec_cpu_cpct(stat@),
{
    let chars = str_to_chars(stat);
    let lines = lines_of(chars.as_slice());
    if lines.len() == 0 {
        return 0;
    }
    let toks = tokens_of(lines[0].as_slice());
    if toks.len() == 0 {
        return 0;
    }
    let ghost views = Seq::new(toks@.len(), |i: int| toks@[i]@);
    proof {
        assert(views =~= spec_tokens(lines@[0]@));
        assert(views.skip(1) =~= spec_tokens(lines@[0]@).drop_first());
    }
    let nums = parsed_u64s_from(&toks, 1);
    if nums.len() < 4 {
        return 0;
    }
    let total = sum_sat(&nums);
    if total == 0 {
        return 0;
    }
    let busy_share = (nums[3] as u128) * 10000 / (total as u128);
    if busy_share > 10000 {
        0
    } else {
        10000 - (busy_share as u64)
    }
}

/// Byte counters summed over the interface lines of the network
/// pseudo-file: the first two lines are headers, the loopback line is
/// skipped, and each line with at least ten columns adds its receive
/// and transmit totals, saturating.
pub open spec fn spec_netdev_rec(acc: (u64, u64), lines: Seq<Seq<char>>) -> (u64, u64)
    decreases lines.len(),
{
    if lines.len() == 0 {
        acc
    } else {
        let t = spec_trim(lines[0]);
        let next = if spec_starts_with(t, "lo:"@) {
            acc
        } else {
            let toks = spec_tokens(t);
            if toks.len() >= 10 {
                let rx = match spec_parse_u64(toks[1]) {
                    Some(v) => spec_sat_add(acc.0, v),
                    None => acc.0,
                };
                let tx = match spec_parse_u64(toks[9]) {
                    Some(v) => spec_sat_add(acc.1, v),
                    None => acc.1,
                };
                (rx, tx)
            } else {
                acc
            }
        };
        spec_netdev_rec(next, lines.drop_first())
    }
}

pub open spec fn spec_netdev(body: Seq<char>) -> (u64, u64) {
    let lines = spec_lines(body);
    if lines.len() <= 2 {
        (0, 0)
    } else {
        spec_netdev_rec((0, 0), lines.skip(2))
    }
}

/// Reads the receive and transmit byte totals from the network
/// pseudo-file's text.
pub fn parse_netdev(netdev: &str) -> (r: (u64, u64))
    ensures
        r == spec_netdev(netdev@),
{
    let chars = str_to_chars(netdev);
    let lines = lines_of(chars.as_slice());
    let nl = lines.len();
    if nl <= 2 {
        return (0, 0);
    }
    let ghost lseq = spec_lines(netdev@);
    let mut rx: u64 = 0;
    let mut tx: u64 = 0;
    let mut i: usize = 2;
    proof {
        assert(lseq.skip(2).skip(0) =~= lseq.skip(2));
    }
    while i < nl
        invariant
            2 <= i <= nl,
            nl == lseq.len(),
            lseq == spec_lines(chars@),
            chars@ == netdev@,
            lines@.len() == nl,
            nl > 2,
            forall|k: int| 0 <= k < nl ==> #[trigger] lines@[k]@ == lseq[k],
            spec_netdev(netdev@) == spec_netdev_rec((rx, tx), lseq.skip(i as int)),
        decreases nl - i,
    {
        proof {
            assert(lseq.skip(i as int)[0] == lseq[i as int]);
            assert(lseq.skip(i as int).drop_first() =~= lseq.skip(i + 1));
        }
        let t = trim_chars(lines[i].as_slice());
        if !starts_with_str(t.as_slice(), "lo:") {
            let toks = tokens_of(t.as_slice());
            if toks.len() >= 10 {
                match parse_u64_chars(toks[1].as_slice()) {
                    Some(v) => {
                        rx = sat_add(rx, v);
                    },
                    None => {},
                }
                match parse_u64_chars(toks[9].as_slice()) {
                    Some(v) => {
                        tx = sat_add(tx, v);
                    },
                    None => {},
                }
            }
        }
        i = i + 1;
    }
    proof {
        assert(lseq.skip(nl as int) =~= Seq::<Seq<char>>::empty());
    }
    (rx, tx)
}

/// Applies the storage tool's text output to the snapshot.
pub fn parse_mpt_output(output: &str, data: &mut SystemData)
    ensures
        *final(data) == spec_parse_mpt(*old(data), output@),
{
    let chars = str_to_chars(output);
    let lines = lines_of(chars.as_slice());
    let nl = lines.len();
    let ghost lseq = spec_lines(output@);
    let mut i: usize = 0;
    proof {
        assert(lseq.skip(0) =~= lseq);
    }
    while i < nl
        invariant
            i <= nl,
            nl == lseq.len(),
            lseq == spec_lines(chars@),
            chars@ == output@,
            lines@.len() == nl,
            forall|k: int| 0 <= k < nl ==> #[trigger] lines@[k]@ == lseq[k],
            spec_parse_mpt(*old(data), output@) == spec_parse_mpt_rec(*data, lseq.skip(i as int)),
        decreases nl - i,
    {
        let current = data.duplicate();
        *data = apply_mpt_line(current, lines[i].as_slice());
        proof {
            assert(lseq.skip(i as int)[0] == lseq[i as int]);
            assert(lseq.skip(i as int).drop_first() =~= lseq.skip(i + 1));
        }
        i = i + 1;
    }
    proof {
        assert(lseq.skip(nl as int) =~= Seq::<Seq<char>>::empty());
    }
}

} // verus!
