use monad_monitor::rpc::RpcData;
use monad_monitor::session::{
    assemble_recent_blocks, parse_block_body_response, parse_block_number_response,
    parse_string_result, BlockBody, SessionAction, SubscriptionSession,
};

fn sends(actions: &[SessionAction]) -> Vec<&String> {
    actions
        .iter()
        .filter_map(|a| match a {
            SessionAction::Send(s) => Some(s),
            SessionAction::Emit(_) => None,
        })
        .collect()
}

fn emits(actions: &[SessionAction]) -> Vec<&RpcData> {
    actions
        .iter()
        .filter_map(|a| match a {
            SessionAction::Emit(d) => Some(d),
            SessionAction::Send(_) => None,
        })
        .collect()
}

#[test]
fn session_opens_with_three_requests() {
    let (_, actions) = SubscriptionSession::start();
    let s = sends(&actions);
    assert_eq!(s.len(), 3);
    assert_eq!(
        s[0],
        "{\"jsonrpc\":\"2.0\",\"method\":\"eth_blockNumber\",\"params\":[],\"id\":0}"
    );
    assert_eq!(s[1], "{\"jsonrpc\":\"2.0\",\"method\":\"eth_gasPrice\",\"params\":[],\"id\":1}");
    assert_eq!(
        s[2],
        "{\"jsonrpc\":\"2.0\",\"method\":\"web3_clientVersion\",\"params\":[],\"id\":2}"
    );
}

#[test]
fn session_backfills_then_subscribes_and_tracks_heads() {
    let (mut s, _) = SubscriptionSession::start();
    assert!(s.on_message("{\"id\":0,\"result\":\"0x5\"}").is_empty());
    assert!(s.on_message("{\"id\":1,\"result\":\"0x3b9aca00\"}").is_empty());
    let backfill = s.on_message("{\"id\":2,\"result\":\"client/v2\"}");
    let reqs = sends(&backfill);
    assert_eq!(reqs.len(), 30);
    assert_eq!(
        reqs[0],
        "{\"jsonrpc\":\"2.0\",\"method\":\"eth_getBlockByNumber\",\"params\":[\"0x5\",false],\"id\":100}"
    );
    assert_eq!(
        reqs[1],
        "{\"jsonrpc\":\"2.0\",\"method\":\"eth_getBlockByNumber\",\"params\":[\"0x4\",false],\"id\":101}"
    );
    // blocks below zero saturate at the genesis number
    assert_eq!(
        reqs[29],
        "{\"jsonrpc\":\"2.0\",\"method\":\"eth_getBlockByNumber\",\"params\":[\"0x0\",false],\"id\":129}"
    );

    // answer every backfill request; the last reply completes the window
    let mut last = Vec::new();
    for i in 0..30u64 {
        let msg = format!(
            "{{\"id\":{},\"result\":{{\"hash\":\"0xaa\",\"transactions\":[\"a\",\"b\"],\"timestamp\":\"0x64\",\"gasUsed\":\"0x10\",\"gasLimit\":\"0x20\"}}}}",
            100 + i
        );
        last = s.on_message(&msg);
        if i < 29 {
            assert!(last.is_empty());
        }
    }
    let emitted = emits(&last);
    assert_eq!(emitted.len(), 1);
    let d = emitted[0];
    assert_eq!(d.block_number, 5);
    assert_eq!(d.gas_price_wei, 1_000_000_000);
    assert_eq!(d.client_version, "client/v2");
    // only block numbers 5..=0 exist below the head
    assert_eq!(d.recent_blocks.len(), 6);
    assert_eq!(d.recent_blocks[0].number, 5);
    assert_eq!(d.recent_blocks[5].number, 0);
    assert_eq!(d.recent_blocks[0].tx_count, 2);
    assert_eq!(d.recent_blocks[0].hash, "0xaa");
    assert_eq!(d.recent_blocks[0].timestamp, 100);
    let subs = sends(&last);
    assert_eq!(subs.len(), 1);
    assert_eq!(
        subs[0],
        "{\"jsonrpc\":\"2.0\",\"method\":\"eth_subscribe\",\"params\":[\"newHeads\"],\"id\":999}"
    );

    // a new head: prepended with unknown tx count, two follow-ups sent
    let head = s.on_message(
        "{\"method\":\"eth_subscription\",\"params\":{\"result\":{\"number\":\"0x6\",\"hash\":\"0xbb\",\"timestamp\":\"0x65\",\"gasUsed\":\"0x1\",\"gasLimit\":\"0x2\"}}}",
    );
    let head_sends = sends(&head);
    assert_eq!(head_sends.len(), 2);
    assert_eq!(
        head_sends[0],
        "{\"jsonrpc\":\"2.0\",\"method\":\"eth_getBlockByNumber\",\"params\":[\"0x6\",false],\"id\":1000}"
    );
    assert_eq!(
        head_sends[1],
        "{\"jsonrpc\":\"2.0\",\"method\":\"eth_gasPrice\",\"params\":[],\"id\":1001}"
    );
    let head_emits = emits(&head);
    assert_eq!(head_emits.len(), 1);
    assert_eq!(head_emits[0].block_number, 6);
    assert_eq!(head_emits[0].recent_blocks.len(), 7);
    assert_eq!(head_emits[0].recent_blocks[0].number, 6);
    assert_eq!(head_emits[0].recent_blocks[0].tx_count, 0);

    // the full-block response patches the head's transaction count
    let patch = s.on_message(
        "{\"id\":1000,\"result\":{\"transactions\":[\"a\",\"b\",\"c\"]}}",
    );
    let patch_emits = emits(&patch);
    assert_eq!(patch_emits.len(), 1);
    assert_eq!(patch_emits[0].recent_blocks[0].tx_count, 3);

    // the gas refresh updates the price silently
    let gas = s.on_message("{\"id\":1001,\"result\":\"0x77359400\"}");
    assert!(gas.is_empty());
    assert_eq!(s.data.gas_price_wei, 2_000_000_000);
}

#[test]
fn session_with_zero_head_skips_backfill() {
    let (mut s, _) = SubscriptionSession::start();
    assert!(s.on_message("{\"id\":0,\"result\":\"0x0\"}").is_empty());
    assert!(s.on_message("{\"id\":1,\"result\":\"0x0\"}").is_empty());
    let done = s.on_message("{\"id\":2,\"result\":\"c\"}");
    assert_eq!(emits(&done).len(), 1);
    assert_eq!(emits(&done)[0].recent_blocks.len(), 0);
    let subs = sends(&done);
    assert_eq!(subs.len(), 1);
    assert!(subs[0].contains("eth_subscribe"));
}

#[test]
fn one_shot_responses_parse() {
    assert_eq!(
        parse_string_result("{\"id\":1,\"result\":\"abc\"}"),
        Some("abc".to_string())
    );
    assert_eq!(parse_string_result("{\"id\":1}"), None);
    assert_eq!(parse_block_number_response("{\"id\":1,\"result\":\"0x2a\"}"), 42);
    assert_eq!(parse_block_number_response("{\"id\":1,\"result\":\"junk\"}"), 0);
    let body = parse_block_body_response(
        "{\"id\":1,\"result\":{\"hash\":\"0xcc\",\"transactions\":[\"x\"],\"timestamp\":\"0x10\",\"gasUsed\":\"0x0\",\"gasLimit\":\"0x0\"}}",
    )
    .unwrap();
    assert_eq!(body.hash, "0xcc");
    assert_eq!(body.tx_count, 1);
    assert_eq!(body.timestamp, 16);
    assert!(parse_block_body_response("nope").is_none());
}

#[test]
fn window_assembly_skips_gaps() {
    let mut slots: Vec<Option<BlockBody>> = Vec::new();
    for i in 0..5usize {
        if i == 2 {
            slots.push(None);
        } else {
            slots.push(Some(BlockBody {
                hash: format!("0x{}", i),
                tx_count: i,
                timestamp: 0,
                gas_used: 0,
                gas_limit: 0,
            }));
        }
    }
    let blocks = assemble_recent_blocks(10, &slots);
    let numbers: Vec<u64> = blocks.iter().map(|b| b.number).collect();
    assert_eq!(numbers, vec![10, 9, 7, 6]);
}

#[test]
fn session_ignores_malformed_messages() {
    let (mut s, _) = SubscriptionSession::start();
    assert!(s.on_message("not json").is_empty());
    assert!(s.on_message("{\"jsonrpc\":\"2.0\"}").is_empty());
    assert!(s.on_message("{\"method\":\"eth_subscription\",\"params\":{\"result\":{\"number\":\"0x0\"}}}").is_empty());
}
