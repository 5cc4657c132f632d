//! Chain-RPC data: hex quantities, the bounded recent-block window,
//! and the JSON-RPC request encoding.
//!
//! Chain-native integers travel as `"0x..."` strings; conversion is
//! total and turns anything unreadable into 0, so a malformed field
//! can never stall the dashboard.

use vstd::prelude::*;
use vstd::string::StringExecFns;
use crate::fmt::{push_dec_u64, hex_quantity, spec_dec_digits, spec_hex_digits};
use crate::text::{is_digit, str_to_chars};

verus! {

/// One chain block as the window keeps it.
#[derive(Clone, Debug)]
pub struct Block {
    pub number: u64,
    pub hash: String,
    pub tx_count: usize,
    pub timestamp: u64,
    pub gas_used: u64,
    pub gas_limit: u64,
}

impl Block {
    /// A field-for-field copy.
    pub fn duplicate(&self) -> (r: Block)
        ensures
            r == *self,
    {
        Block {
            number: self.number,
            hash: self.hash.clone(),
            tx_count: self.tx_count,
            timestamp: self.timestamp,
            gas_used: self.gas_used,
            gas_limit: self.gas_limit,
        }
    }
}

/// How many recent blocks the window retains.
pub const WINDOW_CAP: usize = 30;

/// Blocks ordered newest first: numbers strictly decrease.
pub open spec fn blocks_newest_first(bs: Seq<Block>) -> bool {
    forall|i: int, j: int| 0 <= i < j < bs.len() ==> bs[i].number > bs[j].number
}

/// A point-in-time view of the chain over RPC.
#[derive(Clone, Debug)]
pub struct RpcData {
    pub block_number: u64,
    /// Gas price in wei; divide by 10^9 for gwei.
    pub gas_price_wei: u64,
    pub recent_blocks: Vec<Block>,
    pub client_version: String,
}

/// The window never exceeds its capacity and is ordered newest first.
pub open spec fn rpc_data_wf(d: RpcData) -> bool {
    d.recent_blocks@.len() <= WINDOW_CAP && blocks_newest_first(d.recent_blocks@)
}

/// Two snapshots carry the same values.
pub open spec fn same_rpc_data(a: RpcData, b: RpcData) -> bool {
    a.block_number == b.block_number && a.gas_price_wei == b.gas_price_wei && a.recent_blocks@
        == b.recent_blocks@ && a.client_version == b.client_version
}

impl RpcData {
    pub fn empty() -> (r: RpcData)
        ensures
            r.block_number == 0,
            r.gas_price_wei == 0,
            r.recent_blocks@.len() == 0,
            r.client_version@.len() == 0,
            rpc_data_wf(r),
    {
        RpcData {
            block_number: 0,
            gas_price_wei: 0,
            recent_blocks: Vec::new(),
            client_version: String::new(),
        }
    }

    /// A deep copy, for handing a snapshot out of the session.
    pub fn snapshot(&self) -> (r: RpcData)
        ensures
            same_rpc_data(r, *self),
    {
        let mut blocks: Vec<Block> = Vec::new();
        let n = self.recent_blocks.len();
        let mut i: usize = 0;
        while i < n
            invariant
                i <= n,
                n == self.recent_blocks@.len(),
                blocks@ == self.recent_blocks@.take(i as int),
            decreases n - i,
        {
            blocks.push(self.recent_blocks[i].duplicate());
            proof {
                assert(blocks@ =~= self.recent_blocks@.take(i + 1));
            }
            i = i + 1;
        }
        proof {
            assert(blocks@ =~= self.recent_blocks@);
        }
        RpcData {
            block_number: self.block_number,
            gas_price_wei: self.gas_price_wei,
            recent_blocks: blocks,
            client_version: self.client_version.clone(),
        }
    }
}

/// What prepending a block does to the window: a block newer than the
/// head goes in front and the oldest block past capacity leaves;
/// anything else leaves the window unchanged.
pub open spec fn spec_push_window(w: Seq<Block>, b: Block) -> Seq<Block> {
    if w.len() == 0 || b.number > w[0].number {
        let pushed = seq![b] + w;
        if pushed.len() > WINDOW_CAP {
            pushed.take(WINDOW_CAP as int)
        } else {
            pushed
        }
    } else {
        w
    }
}

/// Prepends a block when it is newer than the window's head, evicting
/// the oldest block past capacity; anything else leaves the window
/// unchanged.  The window therefore stays newest-first and within
/// capacity after any sequence of insertions.
pub fn push_recent_block(blocks: &mut Vec<Block>, b: Block)
    requires
        old(blocks)@.len() <= WINDOW_CAP,
        blocks_newest_first(old(blocks)@),
    ensures
        final(blocks)@ == spec_push_window(old(blocks)@, b),
        final(blocks)@.len() <= WINDOW_CAP,
        blocks_newest_first(final(blocks)@),
{
    let insert = blocks.len() == 0 || b.number > blocks[0].number;
    if insert {
        let ghost before = blocks@;
        blocks.insert(0, b);
        proof {
            assert(blocks@ =~= seq![b] + before);
            assert forall|i: int, j: int| 0 <= i < j < blocks@.len() implies blocks@[i].number
                > blocks@[j].number by {
                if i == 0 {
                    if before.len() > 0 && j >= 2 {
                        assert(before[0].number > before[j - 1].number);
                    }
                } else {
                    assert(before[i - 1].number > before[j - 1].number);
                }
            }
        }
        if blocks.len() > WINDOW_CAP {
            let _ = blocks.pop();
            proof {
                assert(blocks@ =~= (seq![b] + before).take(WINDOW_CAP as int));
            }
        } else {
            proof {
                assert(blocks@ =~= seq![b] + before);
            }
        }
    }
}

proof fn lemma_desc_from_adjacent(bs: Seq<Block>, i: int, j: int)
    requires
        forall|k: int| 0 < k < bs.len() ==> bs[k - 1].number > #[trigger] bs[k].number,
        0 <= i < j < bs.len(),
    ensures
        bs[i].number > bs[j].number,
    decreases j - i,
{
    if i + 1 < j {
        lemma_desc_from_adjacent(bs, i + 1, j);
    }
}

/// Checks the newest-first ordering of a window.
pub fn blocks_newest_first_exec(blocks: &Vec<Block>) -> (r: bool)
    ensures
        r == blocks_newest_first(blocks@),
{
    let n = blocks.len();
    let mut k: usize = 1;
    while k < n
        invariant
            1 <= k,
            k <= n || n == 0,
            n == blocks@.len(),
            forall|m: int| 0 < m < k && m < n ==> blocks@[m - 1].number > #[trigger] blocks@[m].number,
        decreases n - k,
    {
        if blocks[k - 1].number <= blocks[k].number {
            return false;
        }
        k = k + 1;
    }
    proof {
        assert forall|i: int, j: int| 0 <= i < j < blocks@.len() implies blocks@[i].number
            > blocks@[j].number by {
            lemma_desc_from_adjacent(blocks@, i, j);
        }
    }
    true
}

/// Value of a hexadecimal digit character.
pub open spec fn is_hex_digit(c: char) -> bool {
    is_digit(c) || ('a' <= c && c <= 'f') || ('A' <= c && c <= 'F')
}

pub open spec fn hex_digit_val(c: char) -> int {
    if is_digit(c) {
        c as int - '0' as int
    } else if 'a' <= c && c <= 'f' {
        c as int - 'a' as int + 10
    } else {
        c as int - 'A' as int + 10
    }
}

pub open spec fn all_hex_digits(s: Seq<char>) -> bool {
    forall|i: int| 0 <= i < s.len() ==> is_hex_digit(#[trigger] s[i])
}

/// Value of a hex digit string, most significant first.
pub open spec fn hexits_val(s: Seq<char>) -> int
    decreases s.len(),
{
    if s.len() == 0 {
        0
    } else {
        hexits_val(s.drop_last()) * 16 + hex_digit_val(s.last())
    }
}

/// Every leading `0x` removed, as `trim_start_matches` does.
pub open spec fn spec_strip_0x(s: Seq<char>) -> Seq<char>
    decreases s.len(),
{
    if s.len() >= 2 && s[0] == '0' && s[1] == 'x' {
        spec_strip_0x(s.skip(2))
    } else {
        s
    }
}

/// What hex-to-integer conversion yields: the value of the digits
/// after the `0x` prefixes and an optional `+` sign, and 0 whenever
/// the rest is empty, not hexadecimal, or too large for `u64`.
pub open spec fn spec_parse_hex(s: Seq<char>) -> u64 {
    let t0 = spec_strip_0x(s);
    let t = if t0.len() > 0 && t0[0] == '+' {
        t0.drop_first()
    } else {
        t0
    };
    if t.len() > 0 && all_hex_digits(t) && hexits_val(t) <= u64::MAX {
        hexits_val(t) as u64
    } else {
        0
    }
}

/// Conversion is total: once the prefix and sign are stripped, an
/// empty or non-hexadecimal remainder yields 0 rather than an error.
pub proof fn lemma_hex_invalid_yields_zero(s: Seq<char>)
    requires
        ({
            let t0 = spec_strip_0x(s);
            let t = if t0.len() > 0 && t0[0] == '+' {
                t0.drop_first()
            } else {
                t0
            };
            t.len() == 0 || !all_hex_digits(t)
        }),
    ensures
        spec_parse_hex(s) == 0,
{
}

/// Appending hex digits never lowers the value.
proof fn lemma_hexits_val_prefix(s: Seq<char>, k: int)
    requires
        0 <= k <= s.len(),
        all_hex_digits(s),
    ensures
        hexits_val(s.take(k)) <= hexits_val(s),
        hexits_val(s) >= 0,
    decreases s.len(),
{
    if s.len() == 0 {
        assert(s.take(k) =~= s);
    } else {
        assert(is_hex_digit(s[s.len() - 1]));
        lemma_hexits_val_prefix(s.drop_last(), if k <= s.len() - 1 {
            k
        } else {
            k - 1
        });
        if k <= s.len() - 1 {
            assert(s.drop_last().take(k) =~= s.take(k));
        } else {
            assert(s.take(k) =~= s);
        }
    }
}

fn is_hex_digit_c(c: char) -> (r: bool)
    ensures
        r == is_hex_digit(c),
{
    ('0' <= c && c <= '9') || ('a' <= c && c <= 'f') || ('A' <= c && c <= 'F')
}

/// Hex-to-integer conversion: total, never an error.  Strips leading
/// `0x` prefixes and reads the rest as hexadecimal; anything
/// unreadable, or out of range, yields 0.
pub fn parse_hex_u64(hex: &str) -> (r: u64)
    ensures
        r == spec_parse_hex(hex@),
{
    let chars = str_to_chars(hex);
    let n = chars.len();
    let mut lo: usize = 0;
    proof {
        assert(chars@.skip(0) =~= chars@);
    }
    while lo < n && lo + 1 < n && chars[lo] == '0' && chars[lo + 1] == 'x'
        invariant
            lo <= n,
            n == chars@.len(),
            chars@ == hex@,
            spec_strip_0x(hex@) == spec_strip_0x(chars@.skip(lo as int)),
        decreases n - lo,
    {
        proof {
            assert(chars@.skip(lo as int)[0] == chars@[lo as int]);
            assert(chars@.skip(lo as int)[1] == chars@[lo + 1]);
            assert(chars@.skip(lo as int).skip(2) =~= chars@.skip(lo + 2));
        }
        lo = lo + 2;
    }
    let ghost t0 = spec_strip_0x(hex@);
    proof {
        if lo < n {
            assert(chars@.skip(lo as int)[0] == chars@[lo as int]);
            if lo + 1 < n {
                assert(chars@.skip(lo as int)[1] == chars@[lo + 1]);
            }
        }
        assert(t0 == chars@.skip(lo as int));
    }
    let start: usize = if lo < n && chars[lo] == '+' {
        lo + 1
    } else {
        lo
    };
    let ghost t = if t0.len() > 0 && t0[0] == '+' {
        t0.drop_first()
    } else {
        t0
    };
    proof {
        if t0.len() > 0 {
            assert(t0[0] == chars@[lo as int]);
        }
        assert(t =~= chars@.skip(start as int));
    }
    if start == n {
        return 0;
    }
    let mut acc: u64 = 0;
    let mut i: usize = start;
    while i < n
        invariant
            start <= i <= n,
            start < n,
            n == chars@.len(),
            chars@ == hex@,
            t == chars@.skip(start as int),
            t == ({
                let t0 = spec_strip_0x(hex@);
                if t0.len() > 0 && t0[0] == '+' {
                    t0.drop_first()
                } else {
                    t0
                }
            }),
            forall|j: int| start <= j < i ==> is_hex_digit(#[trigger] chars@[j]),
            acc == hexits_val(chars@.subrange(start as int, i as int)),
        decreases n - i,
    {
        let c = chars[i];
        proof {
            assert(t[i - start] == chars@[i as int]);
        }
        if !is_hex_digit_c(c) {
            proof {
                assert(!is_hex_digit(t[i - start]));
            }
            return 0;
        }
        let d: u64 = if '0' <= c && c <= '9' {
            (c as u32 as u64) - 48
        } else if 'a' <= c && c <= 'f' {
            (c as u32 as u64) - 97 + 10
        } else {
            (c as u32 as u64) - 65 + 10
        };
        proof {
            assert(d == hex_digit_val(c));
            assert(chars@.subrange(start as int, i + 1).drop_last() =~= chars@.subrange(
                start as int,
                i as int,
            ));
        }
        let next = match acc.checked_mul(16) {
            Some(m) => m.checked_add(d),
            None => None,
        };
        match next {
            Some(v) => {
                acc = v;
                i = i + 1;
            },
            None => {
                proof {
                    assert(hexits_val(chars@.subrange(start as int, i + 1)) > u64::MAX);
                    if all_hex_digits(t) {
                        assert(chars@.subrange(start as int, i + 1) =~= t.take(i + 1 - start));
                        lemma_hexits_val_prefix(t, i + 1 - start);
                    }
                }
                return 0;
            },
        }
    }
    proof {
        assert(chars@.subrange(start as int, n as int) =~= t);
        assert forall|j: int| 0 <= j < t.len() implies is_hex_digit(#[trigger] t[j]) by {
            assert(t[j] == chars@[start + j]);
        }
    }
    acc
}

/// The exact text of a JSON-RPC request line for a method, parameter
/// text and id.
pub open spec fn spec_request(method: Seq<char>, params: Seq<char>, id: int) -> Seq<char> {
    "{\"jsonrpc\":\"2.0\",\"method\":\""@ + method + "\",\"params\":"@ + params + ",\"id\":"@
        + spec_dec_digits(id) + "}"@
}

/// The exact parameter text of a get-block-by-number call.
pub open spec fn spec_block_params(n: int) -> Seq<char> {
    "[\""@ + "0x"@ + spec_hex_digits(n) + "\",false]"@
}

/// A JSON-RPC request line: fixed envelope, caller-supplied method
/// name, parameter text and id.
pub fn encode_request(method: &str, params: &str, id: u64) -> (r: String)
    ensures
        r@ == spec_request(method@, params@, id as int),
{
    let mut s = String::new();
    s.append("{\"jsonrpc\":\"2.0\",\"method\":\"");
    s.append(method);
    s.append("\",\"params\":");
    s.append(params);
    s.append(",\"id\":");
    push_dec_u64(&mut s, id);
    s.append("}");
    proof {
        assert(s@ =~= spec_request(method@, params@, id as int));
    }
    s
}

/// The parameter text of a get-block-by-number call: the number as a
/// hex quantity, and `false` for header-only transactions.
pub fn block_params(n: u64) -> (r: String)
    ensures
        r@ == spec_block_params(n as int),
{
    let mut s = String::new();
    s.append("[\"");
    let h = hex_quantity(n);
    s.append(h.as_str());
    s.append("\",false]");
    proof {
        assert(s@ =~= spec_block_params(n as int));
    }
    s
}

/// Connection settings for the chain-RPC endpoint.
pub struct RpcClient {
    endpoint: String,
}

impl RpcClient {
    pub closed spec fn endpoint_spec(&self) -> Seq<char> {
        self.endpoint@
    }

    pub fn new(endpoint: &str) -> (r: Self)
        ensures
            r.endpoint_spec() == endpoint@,
    {
        RpcClient { endpoint: endpoint.to_owned() }
    }

    pub fn endpoint(&self) -> (r: &str)
        ensures
            r@ == self.endpoint_spec(),
    {
        self.endpoint.as_str()
    }
}

} // verus!
