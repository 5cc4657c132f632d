//! The push-subscription session: a state machine from inbound
//! JSON-RPC text to requests to send and snapshots to emit.
//!
//! The session opens with three identified requests, backfills the
//! recent-block window by correlating responses to their numeric ids,
//! then subscribes to new heads.  Each new head is prepended to the
//! window and two follow-up requests refresh the head's transaction
//! count and the gas price under reserved sentinel ids.  The caller
//! performs the I/O: it hands every inbound text to
//! [`SubscriptionSession::on_message`] and carries out the actions
//! returned.  [`spec_session_step`] is the full transition relation
//! the handler is proved against.

use vstd::prelude::*;
use crate::json::{
    has_result_of, id_of, method_of, notify_field_str_of, result_field_str_of, result_str_of,
    result_txs_of, json_has_result, json_id, json_method, json_notify_field_str, json_result_str,
    json_result_field_str, json_result_txs,
};
use crate::rpc::{
    Block, RpcData, rpc_data_wf, same_rpc_data, blocks_newest_first, push_recent_block,
    spec_push_window, spec_parse_hex, spec_request, spec_block_params, parse_hex_u64,
    encode_request, block_params, WINDOW_CAP,
};
use crate::text::str_eq;

verus! {

/// Ids of the opening requests.
pub const ID_BLOCK_NUMBER: u64 = 0;

pub const ID_GAS_PRICE: u64 = 1;

pub const ID_CLIENT_VERSION: u64 = 2;

/// First id of the block-window backfill requests.
pub const BACKFILL_BASE: u64 = 100;

pub const ID_SUBSCRIBE: u64 = 999;

/// Sentinel ids for the follow-ups after a new head.
pub const ID_REFRESH_BLOCK: u64 = 1000;

pub const ID_REFRESH_GAS: u64 = 1001;

/// Plain fields read out of a block object in a response.
pub struct BlockBody {
    pub hash: String,
    pub tx_count: usize,
    pub timestamp: u64,
    pub gas_used: u64,
    pub gas_limit: u64,
}

/// What a direct response carries: a string result, or a block
/// object reduced to its plain fields.
pub enum RpcPayload {
    Text(String),
    BlockBody(BlockBody),
}

/// One inbound message, interpreted.
pub enum RpcIncoming {
    NewHead(Block),
    Reply { id: u64, payload: RpcPayload },
    Ignored,
}

/// A hex quantity out of an optional text field: 0 when the field is
/// absent or unreadable.
pub open spec fn spec_hex_or_zero(s: Option<Seq<char>>) -> u64 {
    match s {
        Some(t) => spec_parse_hex(t),
        None => 0,
    }
}

fn hex_or_zero(s: Option<String>) -> (r: u64)
    ensures
        r == (match s {
            Some(t) => spec_parse_hex(t@),
            None => 0u64,
        }),
{
    match s {
        Some(t) => parse_hex_u64(t.as_str()),
        None => 0,
    }
}

/// Whether the text is a new-heads notification.
pub open spec fn spec_is_notification(text: Seq<char>) -> bool {
    method_of(text) == Some("eth_subscription"@)
}

/// The notification's block number; 0 when absent or unreadable.
pub open spec fn spec_notify_number(text: Seq<char>) -> u64 {
    spec_hex_or_zero(notify_field_str_of(text, "number"@))
}

/// The block a notification's header fields describe: transaction
/// count unknown (zero), missing fields at their defaults.
pub open spec fn spec_notify_block(b: Block, text: Seq<char>) -> bool {
    &&& b.number == spec_notify_number(text)
    &&& b.tx_count == 0
    &&& b.hash@ == (match notify_field_str_of(text, "hash"@) {
        Some(h) => h,
        None => "0x0"@,
    })
    &&& b.timestamp == spec_hex_or_zero(notify_field_str_of(text, "timestamp"@))
    &&& b.gas_used == spec_hex_or_zero(notify_field_str_of(text, "gasUsed"@))
    &&& b.gas_limit == spec_hex_or_zero(notify_field_str_of(text, "gasLimit"@))
}

/// The reduced block a response's `result` object describes: missing
/// fields at their defaults.
pub open spec fn spec_reply_block(b: BlockBody, text: Seq<char>) -> bool {
    &&& b.hash@ == (match result_field_str_of(text, "hash"@) {
        Some(h) => h,
        None => "0x0"@,
    })
    &&& b.tx_count == (match result_txs_of(text) {
        Some(n) => n,
        None => 0usize,
    })
    &&& b.timestamp == spec_hex_or_zero(result_field_str_of(text, "timestamp"@))
    &&& b.gas_used == spec_hex_or_zero(result_field_str_of(text, "gasUsed"@))
    &&& b.gas_limit == spec_hex_or_zero(result_field_str_of(text, "gasLimit"@))
}

/// How one inbound text reads: a notification with a positive head
/// number becomes that block; a response with an id becomes its id
/// and its string or block payload; everything else is ignored.
pub open spec fn spec_interpretation(text: Seq<char>, r: RpcIncoming) -> bool {
    if spec_is_notification(text) {
        if spec_notify_number(text) > 0 {
            r matches RpcIncoming::NewHead(b) && spec_notify_block(b, text)
        } else {
            r is Ignored
        }
    } else {
        match id_of(text) {
            Some(i) => match result_str_of(text) {
                Some(sv) => (r matches RpcIncoming::Reply { id, payload } && id == i && (
                payload matches RpcPayload::Text(t) && t@ == sv)),
                None => if has_result_of(text) {
                    (r matches RpcIncoming::Reply { id, payload } && id == i && (
                    payload matches RpcPayload::BlockBody(b) && spec_reply_block(b, text)))
                } else {
                    r is Ignored
                },
            },
            None => r is Ignored,
        }
    }
}

/// The reduced block out of a response's `result` object, fields
/// defaulted where missing.
fn result_block_body(text: &str) -> (r: BlockBody)
    ensures
        spec_reply_block(r, text@),
{
    let hash = match json_result_field_str(text, "hash") {
        Some(h) => h,
        None => "0x0".to_owned(),
    };
    let tx_count = match json_result_txs(text) {
        Some(n) => n,
        None => 0,
    };
    BlockBody {
        hash,
        tx_count,
        timestamp: hex_or_zero(json_result_field_str(text, "timestamp")),
        gas_used: hex_or_zero(json_result_field_str(text, "gasUsed")),
        gas_limit: hex_or_zero(json_result_field_str(text, "gasLimit")),
    }
}

/// Reads one inbound message.
pub fn interpret_message(text: &str) -> (r: RpcIncoming)
    ensures
        spec_interpretation(text@, r),
{
    let is_sub = match json_method(text) {
        Some(m) => str_eq(m.as_str(), "eth_subscription"),
        None => false,
    };
    if is_sub {
        let number = hex_or_zero(json_notify_field_str(text, "number"));
        if number == 0 {
            return RpcIncoming::Ignored;
        }
        let hash = match json_notify_field_str(text, "hash") {
            Some(h) => h,
            None => "0x0".to_owned(),
        };
        RpcIncoming::NewHead(
            Block {
                number,
                hash,
                tx_count: 0,
                timestamp: hex_or_zero(json_notify_field_str(text, "timestamp")),
                gas_used: hex_or_zero(json_notify_field_str(text, "gasUsed")),
                gas_limit: hex_or_zero(json_notify_field_str(text, "gasLimit")),
            },
        )
    } else {
        let id = match json_id(text) {
            Some(i) => i,
            None => {
                return RpcIncoming::Ignored;
            },
        };
        match json_result_str(text) {
            Some(s) => RpcIncoming::Reply { id, payload: RpcPayload::Text(s) },
            None => {
                if json_has_result(text) {
                    RpcIncoming::Reply {
                        id,
                        payload: RpcPayload::BlockBody(result_block_body(text)),
                    }
                } else {
                    RpcIncoming::Ignored
                }
            },
        }
    }
}

/// The `result` field of a one-shot response, when it is a string.
pub fn parse_string_result(text: &str) -> (r: Option<String>)
    ensures
        match r {
            Some(s) => result_str_of(text@) == Some(s@),
            None => result_str_of(text@) is None,
        },
{
    json_result_str(text)
}

/// The head number out of a one-shot block-number response: the
/// `result` field read as a hex quantity, 0 when anything is missing
/// or unreadable.
pub fn parse_block_number_response(text: &str) -> (r: u64)
    ensures
        r == spec_hex_or_zero(result_str_of(text@)),
{
    match parse_string_result(text) {
        Some(s) => parse_hex_u64(s.as_str()),
        None => 0,
    }
}

/// The block object out of a one-shot get-block response, reduced to
/// its plain fields; `None` when the text has no `result`.
pub fn parse_block_body_response(text: &str) -> (r: Option<BlockBody>)
    ensures
        has_result_of(text@) ==> (r matches Some(b) && spec_reply_block(b, text@)),
        !has_result_of(text@) ==> r is None,
{
    if json_has_result(text) {
        Some(result_block_body(text))
    } else {
        None
    }
}

/// Collects the backfill responses, one slot per requested block.
pub struct Backfill {
    pub start_block: u64,
    pub slots: Vec<Option<BlockBody>>,
}

/// What filing a response does to the slots: slot `id - BACKFILL_BASE`
/// takes the body when the id is in range and the slot was empty.
pub open spec fn spec_file_reply(
    slots: Seq<Option<BlockBody>>,
    id: u64,
    body: BlockBody,
) -> Seq<Option<BlockBody>> {
    let idx = id as int - BACKFILL_BASE as int;
    if 0 <= idx && idx < slots.len() && slots[idx] is None {
        slots.update(idx, Some(body))
    } else {
        slots
    }
}

impl Backfill {
    pub open spec fn wf(self) -> bool {
        self.slots@.len() <= WINDOW_CAP
    }

    pub fn new(start_block: u64, count: usize) -> (r: Self)
        requires
            count <= WINDOW_CAP,
        ensures
            r.wf(),
            r.slots@.len() == count,
            forall|i: int| 0 <= i < count ==> r.slots@[i] is None,
            r.start_block == start_block,
    {
        let mut slots: Vec<Option<BlockBody>> = Vec::new();
        let mut i: usize = 0;
        while i < count
            invariant
                i <= count,
                slots@.len() == i,
                forall|k: int| 0 <= k < i ==> slots@[k] is None,
            decreases count - i,
        {
            slots.push(None);
            i = i + 1;
        }
        Backfill { start_block, slots }
    }

    /// Files a response under its id; ids outside the requested range
    /// and repeated ids are dropped, all other slots stay as they are.
    pub fn on_reply(&mut self, id: u64, body: BlockBody)
        requires
            old(self).wf(),
        ensures
            final(self).wf(),
            final(self).start_block == old(self).start_block,
            final(self).slots@ == spec_file_reply(old(self).slots@, id, body),
    {
        if id >= BACKFILL_BASE && id - BACKFILL_BASE < self.slots.len() as u64 {
            let idx = (id - BACKFILL_BASE) as usize;
            if self.slots[idx].is_none() {
                self.slots[idx] = Some(body);
                return ;
            }
        }
        proof {
            assert(self.slots@ == spec_file_reply(self.slots@, id, body));
        }
    }

    /// Whether every requested block has answered.
    pub fn is_complete(&self) -> (r: bool)
        ensures
            r == (forall|i: int| 0 <= i < self.slots@.len() ==> self.slots@[i] is Some),
    {
        let n = self.slots.len();
        let mut i: usize = 0;
        while i < n
            invariant
                i <= n,
                n == self.slots@.len(),
                forall|j: int| 0 <= j < i ==> self.slots@[j] is Some,
            decreases n - i,
        {
            if self.slots[i].is_none() {
                return false;
            }
            i = i + 1;
        }
        true
    }

    /// Assembles the window, newest first.
    pub fn into_blocks(&self) -> (r: Vec<Block>)
        requires
            self.wf(),
        ensures
            r@ == spec_assembled(self.start_block, self.slots@, 0),
            r@.len() <= WINDOW_CAP,
            blocks_newest_first(r@),
    {
        assemble_recent_blocks(self.start_block, &self.slots)
    }
}

/// The block that slot body `body` yields for block number `number`.
pub open spec fn spec_block_of(number: u64, body: BlockBody) -> Block {
    Block {
        number,
        hash: body.hash,
        tx_count: body.tx_count,
        timestamp: body.timestamp,
        gas_used: body.gas_used,
        gas_limit: body.gas_limit,
    }
}

/// The assembled window from slot `i` on: one block per filled slot
/// `k` with `k <= start`, numbered `start - k`, in slot order.
pub open spec fn spec_assembled(start: u64, slots: Seq<Option<BlockBody>>, i: int) -> Seq<Block>
    decreases slots.len() - i,
{
    if i < 0 || i >= slots.len() {
        seq![]
    } else {
        let rest = spec_assembled(start, slots, i + 1);
        if i <= start {
            match slots[i] {
                Some(body) => seq![spec_block_of((start - i) as u64, body)] + rest,
                None => rest,
            }
        } else {
            rest
        }
    }
}

/// Assembles a window from per-block results, newest first: slot `i`
/// holds block `start_block - i`; missing or out-of-range slots are
/// skipped, so the result is strictly descending.  The same assembly
/// serves the subscription backfill and the one-shot polling mode.
pub fn assemble_recent_blocks(start_block: u64, slots: &Vec<Option<BlockBody>>) -> (r: Vec<Block>)
    requires
        slots@.len() <= WINDOW_CAP,
    ensures
        r@ == spec_assembled(start_block, slots@, 0),
        r@.len() <= WINDOW_CAP,
        blocks_newest_first(r@),
{
    let n = slots.len();
    let mut out: Vec<Block> = Vec::new();
    let mut i: usize = 0;
    while i < n
        invariant
            i <= n,
            n == slots@.len(),
            n <= WINDOW_CAP,
            out@.len() <= i,
            blocks_newest_first(out@),
            forall|k: int|
                0 <= k < out@.len() ==> (#[trigger] out@[k].number) as int > start_block as int
                    - i as int,
            spec_assembled(start_block, slots@, 0) == out@ + spec_assembled(
                start_block,
                slots@,
                i as int,
            ),
        decreases n - i,
    {
        if i as u64 <= start_block {
            match &slots[i] {
                Some(body) => {
                    let b = Block {
                        number: start_block - i as u64,
                        hash: body.hash.clone(),
                        tx_count: body.tx_count,
                        timestamp: body.timestamp,
                        gas_used: body.gas_used,
                        gas_limit: body.gas_limit,
                    };
                    let ghost prev = out@;
                    out.push(b);
                    proof {
                        assert(b == spec_block_of((start_block - i as int) as u64, slots@[i as int]->Some_0));
                        assert(out@ + spec_assembled(start_block, slots@, i + 1) =~= prev + seq![b]
                            + spec_assembled(start_block, slots@, i + 1));
                        assert(seq![b] + spec_assembled(start_block, slots@, i + 1)
                            =~= spec_assembled(start_block, slots@, i as int));
                        assert forall|p: int, q: int|
                            0 <= p < q < out@.len() implies out@[p].number > out@[q].number by {
                            if q < prev.len() {
                                assert(prev[p].number > prev[q].number);
                            } else {
                                assert(prev[p].number as int > start_block as int - i as int);
                            }
                        }
                    }
                },
                None => {},
            }
        }
        i = i + 1;
    }
    proof {
        assert(spec_assembled(start_block, slots@, n as int) =~= Seq::<Block>::empty());
        assert(out@ =~= spec_assembled(start_block, slots@, 0));
    }
    out
}

/// Where the session stands.
pub enum Phase {
    Handshake { got_head: bool, got_gas: bool, got_version: bool },
    Backfilling(Backfill),
    Live { awaiting_tx_count: Option<u64> },
}

/// What the caller must do with the connection, in order.
pub enum SessionAction {
    Send(String),
    Emit(RpcData),
}

/// The subscription state machine.  It owns the snapshot exclusively
/// and only ever emits deep copies, so no shared mutable view leaves
/// the session.
pub struct SubscriptionSession {
    pub data: RpcData,
    pub phase: Phase,
}

/// The text of a string payload; empty for a block payload.
pub open spec fn spec_payload_text(p: RpcPayload) -> Seq<char> {
    match p {
        RpcPayload::Text(s) => s@,
        RpcPayload::BlockBody(_) => Seq::empty(),
    }
}

/// Block number `head - k`, saturating at zero, as the backfill
/// requests count down from the head.
pub open spec fn spec_head_minus(head: u64, k: int) -> int {
    if k <= head {
        head - k
    } else {
        0
    }
}

/// A block with its transaction count replaced.
pub open spec fn spec_with_tx_count(b: Block, n: usize) -> Block {
    Block { tx_count: n, ..b }
}

/// Transition on a new head: only a live session reacts, prepending
/// the block, raising the head, requesting the full block and a gas
/// refresh under the sentinel ids, and emitting the snapshot.
pub open spec fn spec_new_head_step(
    pre: SubscriptionSession,
    b: Block,
    post: SubscriptionSession,
    actions: Seq<SessionAction>,
) -> bool {
    if pre.phase matches Phase::Live { .. } {
        &&& post.data.block_number == b.number
        &&& post.data.recent_blocks@ == spec_push_window(pre.data.recent_blocks@, b)
        &&& post.data.gas_price_wei == pre.data.gas_price_wei
        &&& post.data.client_version == pre.data.client_version
        &&& (post.phase matches Phase::Live { awaiting_tx_count } && awaiting_tx_count == Some(
            b.number,
        ))
        &&& actions.len() == 3
        &&& (actions[0] matches SessionAction::Send(t) && t@ == spec_request(
            "eth_getBlockByNumber"@,
            spec_block_params(b.number as int),
            ID_REFRESH_BLOCK as int,
        ))
        &&& (actions[1] matches SessionAction::Send(t) && t@ == spec_request(
            "eth_gasPrice"@,
            "[]"@,
            ID_REFRESH_GAS as int,
        ))
        &&& (actions[2] matches SessionAction::Emit(d) && same_rpc_data(d, post.data))
    } else {
        post == pre && actions.len() == 0
    }
}

/// Transition on a reply during the handshake: a string result files
/// its field under its id; once all three opening replies are in, the
/// session either requests the thirty-block backfill or, with no head
/// yet, emits and subscribes at once.
pub open spec fn spec_handshake_step(
    pre: SubscriptionSession,
    got_head: bool,
    got_gas: bool,
    got_version: bool,
    id: u64,
    payload: RpcPayload,
    post: SubscriptionSession,
    actions: Seq<SessionAction>,
) -> bool {
    let is_text = payload matches RpcPayload::Text(_);
    let nh = got_head || (is_text && id == ID_BLOCK_NUMBER);
    let ng = got_gas || (is_text && id == ID_GAS_PRICE);
    let nv = got_version || (is_text && id == ID_CLIENT_VERSION);
    &&& post.data.block_number == (if is_text && id == ID_BLOCK_NUMBER {
        spec_parse_hex(spec_payload_text(payload))
    } else {
        pre.data.block_number
    })
    &&& post.data.gas_price_wei == (if is_text && id == ID_GAS_PRICE {
        spec_parse_hex(spec_payload_text(payload))
    } else {
        pre.data.gas_price_wei
    })
    &&& post.data.client_version@ == (if is_text && id == ID_CLIENT_VERSION {
        spec_payload_text(payload)
    } else {
        pre.data.client_version@
    })
    &&& post.data.recent_blocks@ == pre.data.recent_blocks@
    &&& (if nh && ng && nv {
        if post.data.block_number > 0 {
            &&& (post.phase matches Phase::Backfilling(bf) && bf.start_block
                == post.data.block_number && bf.slots@.len() == WINDOW_CAP && forall|k: int|
                0 <= k < bf.slots@.len() ==> bf.slots@[k] is None)
            &&& actions.len() == WINDOW_CAP
            &&& (forall|k: int|
                0 <= k < actions.len() ==> ((#[trigger] actions[k]) matches SessionAction::Send(t)
                    && t@ == spec_request(
                    "eth_getBlockByNumber"@,
                    spec_block_params(spec_head_minus(post.data.block_number, k)),
                    BACKFILL_BASE as int + k,
                )))
        } else {
            &&& actions.len() == 2
            &&& (actions[0] matches SessionAction::Emit(d) && same_rpc_data(d, post.data))
            &&& (actions[1] matches SessionAction::Send(t) && t@ == spec_request(
                "eth_subscribe"@,
                "[\"newHeads\"]"@,
                ID_SUBSCRIBE as int,
            ))
            &&& (post.phase matches Phase::Live { awaiting_tx_count } && awaiting_tx_count
                is None)
        }
    } else {
        &&& (post.phase matches Phase::Handshake { got_head: h2, got_gas: g2, got_version: v2 }
            && h2 == nh && g2 == ng && v2 == nv)
        &&& actions.len() == 0
    })
}

/// Transition on a reply during the backfill: a block payload files
/// its slot; the reply that completes the window assembles it, emits,
/// and subscribes to new heads.
pub open spec fn spec_backfill_step(
    pre: SubscriptionSession,
    bf: Backfill,
    id: u64,
    payload: RpcPayload,
    post: SubscriptionSession,
    actions: Seq<SessionAction>,
) -> bool {
    match payload {
        RpcPayload::BlockBody(body) => {
            let slots2 = spec_file_reply(bf.slots@, id, body);
            let complete = forall|k: int| 0 <= k < slots2.len() ==> slots2[k] is Some;
            if complete {
                &&& post.data.recent_blocks@ == spec_assembled(bf.start_block, slots2, 0)
                &&& post.data.block_number == pre.data.block_number
                &&& post.data.gas_price_wei == pre.data.gas_price_wei
                &&& post.data.client_version == pre.data.client_version
                &&& (post.phase matches Phase::Live { awaiting_tx_count } && awaiting_tx_count
                    is None)
                &&& actions.len() == 2
                &&& (actions[0] matches SessionAction::Emit(d) && same_rpc_data(d, post.data))
                &&& (actions[1] matches SessionAction::Send(t) && t@ == spec_request(
                    "eth_subscribe"@,
                    "[\"newHeads\"]"@,
                    ID_SUBSCRIBE as int,
                ))
            } else {
                &&& same_rpc_data(post.data, pre.data)
                &&& (post.phase matches Phase::Backfilling(bf2) && bf2.start_block
                    == bf.start_block && bf2.slots@ == slots2)
                &&& actions.len() == 0
            }
        },
        RpcPayload::Text(_) => post == pre && actions.len() == 0,
    }
}

/// Transition on a reply while live: the sentinel block reply patches
/// the transaction count into the still-newest head and re-emits; the
/// sentinel gas reply refreshes the price silently; anything else is
/// dropped.
pub open spec fn spec_live_reply_step(
    pre: SubscriptionSession,
    awaiting: Option<u64>,
    id: u64,
    payload: RpcPayload,
    post: SubscriptionSession,
    actions: Seq<SessionAction>,
) -> bool {
    if id == ID_REFRESH_BLOCK {
        match payload {
            RpcPayload::BlockBody(body) => {
                let w = pre.data.recent_blocks@;
                let patch = awaiting matches Some(n) && w.len() > 0 && w[0].number == n;
                &&& post.data.recent_blocks@ == (if patch {
                    w.update(0, spec_with_tx_count(w[0], body.tx_count))
                } else {
                    w
                })
                &&& post.data.block_number == pre.data.block_number
                &&& post.data.gas_price_wei == pre.data.gas_price_wei
                &&& post.data.client_version == pre.data.client_version
                &&& post.phase == pre.phase
                &&& actions.len() == 1
                &&& (actions[0] matches SessionAction::Emit(d) && same_rpc_data(d, post.data))
            },
            RpcPayload::Text(_) => post == pre && actions.len() == 0,
        }
    } else if id == ID_REFRESH_GAS {
        match payload {
            RpcPayload::Text(s) => {
                &&& post.data.gas_price_wei == spec_parse_hex(s@)
                &&& post.data.block_number == pre.data.block_number
                &&& post.data.recent_blocks@ == pre.data.recent_blocks@
                &&& post.data.client_version == pre.data.client_version
                &&& post.phase == pre.phase
                &&& actions.len() == 0
            },
            RpcPayload::BlockBody(_) => post == pre && actions.len() == 0,
        }
    } else {
        post == pre && actions.len() == 0
    }
}

/// How one interpreted message advances the session: the full
/// transition relation.
pub open spec fn spec_session_step(
    pre: SubscriptionSession,
    msg: RpcIncoming,
    post: SubscriptionSession,
    actions: Seq<SessionAction>,
) -> bool {
    match msg {
        RpcIncoming::Ignored => post == pre && actions.len() == 0,
        RpcIncoming::NewHead(b) => spec_new_head_step(pre, b, post, actions),
        RpcIncoming::Reply { id, payload } => match pre.phase {
            Phase::Handshake { got_head, got_gas, got_version } => spec_handshake_step(
                pre,
                got_head,
                got_gas,
                got_version,
                id,
                payload,
                post,
                actions,
            ),
            Phase::Backfilling(bf) => spec_backfill_step(pre, bf, id, payload, post, actions),
            Phase::Live { awaiting_tx_count } => spec_live_reply_step(
                pre,
                awaiting_tx_count,
                id,
                payload,
                post,
                actions,
            ),
        },
    }
}

impl SubscriptionSession {
    pub open spec fn wf(self) -> bool {
        rpc_data_wf(self.data) && match self.phase {
            Phase::Backfilling(bf) => bf.wf(),
            _ => true,
        }
    }

    /// Every emitted snapshot equals the session's final data and is
    /// well formed.
    pub open spec fn actions_emit_final(actions: Seq<SessionAction>, s: SubscriptionSession) -> bool {
        forall|i: int|
            0 <= i < actions.len() ==> match #[trigger] actions[i] {
                SessionAction::Emit(d) => same_rpc_data(d, s.data) && rpc_data_wf(d),
                SessionAction::Send(_) => true,
            }
    }

    /// A fresh session and exactly the three opening requests.
    pub fn start() -> (r: (SubscriptionSession, Vec<SessionAction>))
        ensures
            r.0.wf(),
            r.0.data.block_number == 0,
            r.0.data.gas_price_wei == 0,
            r.0.data.recent_blocks@.len() == 0,
            r.0.data.client_version@.len() == 0,
            (r.0.phase matches Phase::Handshake { got_head, got_gas, got_version } && !got_head
                && !got_gas && !got_version),
            r.1@.len() == 3,
            (r.1@[0] matches SessionAction::Send(t) && t@ == spec_request(
                "eth_blockNumber"@,
                "[]"@,
                ID_BLOCK_NUMBER as int,
            )),
            (r.1@[1] matches SessionAction::Send(t) && t@ == spec_request(
                "eth_gasPrice"@,
                "[]"@,
                ID_GAS_PRICE as int,
            )),
            (r.1@[2] matches SessionAction::Send(t) && t@ == spec_request(
                "web3_clientVersion"@,
                "[]"@,
                ID_CLIENT_VERSION as int,
            )),
            Self::actions_emit_final(r.1@, r.0),
    {
        let mut actions: Vec<SessionAction> = Vec::new();
        actions.push(
            SessionAction::Send(encode_request("eth_blockNumber", "[]", ID_BLOCK_NUMBER)),
        );
        actions.push(SessionAction::Send(encode_request("eth_gasPrice", "[]", ID_GAS_PRICE)));
        actions.push(
            SessionAction::Send(encode_request("web3_clientVersion", "[]", ID_CLIENT_VERSION)),
        );
        let s = SubscriptionSession {
            data: RpcData::empty(),
            phase: Phase::Handshake { got_head: false, got_gas: false, got_version: false },
        };
        (s, actions)
    }

    fn subscribe_request() -> (r: SessionAction)
        ensures
            r matches SessionAction::Send(t) && t@ == spec_request(
                "eth_subscribe"@,
                "[\"newHeads\"]"@,
                ID_SUBSCRIBE as int,
            ),
    {
        SessionAction::Send(encode_request("eth_subscribe", "[\"newHeads\"]", ID_SUBSCRIBE))
    }

    /// Applies one interpreted message: the returned actions are the
    /// requests to send and snapshots to emit, in order, and the step
    /// follows [`spec_session_step`] exactly.
    #[verifier::rlimit(60)]
    pub fn on_incoming(&mut self, msg: RpcIncoming) -> (actions: Vec<SessionAction>)
        requires
            old(self).wf(),
        ensures
            final(self).wf(),
            spec_session_step(*old(self), msg, *final(self), actions@),
            Self::actions_emit_final(actions@, *final(self)),
    {
        let mut actions: Vec<SessionAction> = Vec::new();
        match msg {
            RpcIncoming::Ignored => {},
            RpcIncoming::NewHead(b) => {
                let live = matches!(&self.phase, Phase::Live { .. });
                if live {
                    let num = b.number;
                    self.data.block_number = num;
                    push_recent_block(&mut self.data.recent_blocks, b);
                    self.phase = Phase::Live { awaiting_tx_count: Some(num) };
                    let params = block_params(num);
                    actions.push(
                        SessionAction::Send(
                            encode_request(
                                "eth_getBlockByNumber",
                                params.as_str(),
                                ID_REFRESH_BLOCK,
                            ),
                        ),
                    );
                    actions.push(
                        SessionAction::Send(encode_request("eth_gasPrice", "[]", ID_REFRESH_GAS)),
                    );
                    actions.push(SessionAction::Emit(self.data.snapshot()));
                }
            },
            RpcIncoming::Reply { id, payload } => {
                let handshake: Option<(bool, bool, bool)> = match &self.phase {
                    Phase::Handshake { got_head, got_gas, got_version } => Some(
                        (*got_head, *got_gas, *got_version),
                    ),
                    _ => None,
                };
                match handshake {
                    Some((was_head, was_gas, was_version)) => {
                        let mut got_head = was_head;
                        let mut got_gas = was_gas;
                        let mut got_version = was_version;
                        match payload {
                            RpcPayload::Text(s) => {
                                if id == ID_BLOCK_NUMBER {
                                    self.data.block_number = parse_hex_u64(s.as_str());
                                    got_head = true;
                                } else if id == ID_GAS_PRICE {
                                    self.data.gas_price_wei = parse_hex_u64(s.as_str());
                                    got_gas = true;
                                } else if id == ID_CLIENT_VERSION {
                                    self.data.client_version = s;
                                    got_version = true;
                                }
                            },
                            RpcPayload::BlockBody(_) => {},
                        }
                        if got_head && got_gas && got_version {
                            if self.data.block_number > 0 {
                                let head = self.data.block_number;
                                let bf = Backfill::new(head, WINDOW_CAP);
                                let mut i: usize = 0;
                                while i < WINDOW_CAP
                                    invariant
                                        i <= WINDOW_CAP,
                                        head == self.data.block_number,
                                        actions@.len() == i,
                                        forall|k: int|
                                            0 <= k < i ==> ((#[trigger] actions@[k]) matches SessionAction::Send(t)
                                                && t@ == spec_request(
                                                "eth_getBlockByNumber"@,
                                                spec_block_params(spec_head_minus(head, k)),
                                                BACKFILL_BASE as int + k,
                                            )),
                                    decreases WINDOW_CAP - i,
                                {
                                    let number = if (i as u64) <= head {
                                        head - i as u64
                                    } else {
                                        0
                                    };
                                    let params = block_params(number);
                                    actions.push(
                                        SessionAction::Send(
                                            encode_request(
                                                "eth_getBlockByNumber",
                                                params.as_str(),
                                                BACKFILL_BASE + i as u64,
                                            ),
                                        ),
                                    );
                                    i = i + 1;
                                }
                                self.phase = Phase::Backfilling(bf);
                            } else {
                                actions.push(SessionAction::Emit(self.data.snapshot()));
                                actions.push(Self::subscribe_request());
                                self.phase = Phase::Live { awaiting_tx_count: None };
                            }
                        } else {
                            self.phase = Phase::Handshake { got_head, got_gas, got_version };
                        }
                    },
                    None => {
                        let in_backfill = matches!(&self.phase, Phase::Backfilling(_));
                        if in_backfill {
                            match payload {
                                RpcPayload::BlockBody(body) => {
                                    let mut finished: Option<Vec<Block>> = None;
                                    match &mut self.phase {
                                        Phase::Backfilling(bf) => {
                                            bf.on_reply(id, body);
                                            if bf.is_complete() {
                                                finished = Some(bf.into_blocks());
                                            }
                                        },
                                        _ => {},
                                    }
                                    match finished {
                                        Some(blocks) => {
                                            self.data.recent_blocks = blocks;
                                            actions.push(
                                                SessionAction::Emit(self.data.snapshot()),
                                            );
                                            actions.push(Self::subscribe_request());
                                            self.phase = Phase::Live { awaiting_tx_count: None };
                                        },
                                        None => {},
                                    }
                                },
                                RpcPayload::Text(_) => {},
                            }
                        } else {
                            let awaiting: Option<u64> = match &self.phase {
                                Phase::Live { awaiting_tx_count } => *awaiting_tx_count,
                                _ => None,
                            };
                            let live = matches!(&self.phase, Phase::Live { .. });
                            if live {
                                if id == ID_REFRESH_BLOCK {
                                    match payload {
                                        RpcPayload::BlockBody(body) => {
                                            match awaiting {
                                                Some(num) => {
                                                    if self.data.recent_blocks.len() > 0
                                                        && self.data.recent_blocks[0].number
                                                        == num {
                                                        let ghost before =
                                                            self.data.recent_blocks@;
                                                        self.data.recent_blocks[0].tx_count =
                                                            body.tx_count;
                                                        proof {
                                                            assert(self.data.recent_blocks@
                                                                =~= before.update(
                                                                0,
                                                                spec_with_tx_count(
                                                                    before[0],
                                                                    body.tx_count,
                                                                ),
                                                            ));
                                                            assert forall|p: int, q: int|
                                                                0 <= p < q
                                                                    < self.data.recent_blocks@.len() implies
                                                                self.data.recent_blocks@[p].number
                                                                > self.data.recent_blocks@[q].number by {
                                                                assert(before[p].number
                                                                    > before[q].number);
                                                            }
                                                        }
                                                    }
                                                },
                                                None => {},
                                            }
                                            actions.push(
                                                SessionAction::Emit(self.data.snapshot()),
                                            );
                                        },
                                        RpcPayload::Text(_) => {},
                                    }
                                } else if id == ID_REFRESH_GAS {
                                    match payload {
                                        RpcPayload::Text(s) => {
                                            self.data.gas_price_wei = parse_hex_u64(s.as_str());
                                        },
                                        RpcPayload::BlockBody(_) => {},
                                    }
                                }
                            }
                        }
                    },
                }
            },
        }
        actions
    }

    /// Applies one inbound text: the message it interprets to (per
    /// [`spec_interpretation`]) advances the session one step of
    /// [`spec_session_step`].
    pub fn on_message(&mut self, text: &str) -> (actions: Vec<SessionAction>)
        requires
            old(self).wf(),
        ensures
            final(self).wf(),
            Self::actions_emit_final(actions@, *final(self)),
            exists|msg: RpcIncoming|
                #[trigger] spec_interpretation(text@, msg) && spec_session_step(
                    *old(self),
                    msg,
                    *final(self),
                    actions@,
                ),
    {
        let msg = interpret_message(text);
        let ghost m = msg;
        let actions = self.on_incoming(msg);
        proof {
            assert(spec_interpretation(text@, m) && spec_session_step(
                *old(self),
                m,
                *final(self),
                actions@,
            ));
        }
        actions
    }
}

} // verus!
