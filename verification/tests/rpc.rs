use monad_monitor::rpc::{
    block_params, encode_request, parse_hex_u64, push_recent_block, Block, RpcClient, RpcData,
};
use monad_monitor::fmt::hex_quantity;

fn block(number: u64) -> Block {
    Block {
        number,
        hash: format!("0x{:x}", number),
        tx_count: 0,
        timestamp: number * 2,
        gas_used: 0,
        gas_limit: 0,
    }
}

#[test]
fn hex_conversion_reads_quantities() {
    assert_eq!(parse_hex_u64("0x1a"), 26);
    assert_eq!(parse_hex_u64("1A"), 26);
    assert_eq!(parse_hex_u64("0xff"), 255);
    assert_eq!(parse_hex_u64("+ff"), 255);
    assert_eq!(parse_hex_u64("0xffffffffffffffff"), u64::MAX);
}

#[test]
fn hex_conversion_is_total() {
    assert_eq!(parse_hex_u64(""), 0);
    assert_eq!(parse_hex_u64("0x"), 0);
    assert_eq!(parse_hex_u64("xyz"), 0);
    assert_eq!(parse_hex_u64("-1"), 0);
    assert_eq!(parse_hex_u64("0x10000000000000000"), 0);
    assert_eq!(parse_hex_u64("0x12g4"), 0);
}

#[test]
fn hex_conversion_strips_repeated_prefixes() {
    assert_eq!(parse_hex_u64("0x0x10"), 16);
}

#[test]
fn window_never_exceeds_capacity_and_stays_newest_first() {
    let mut blocks: Vec<Block> = Vec::new();
    for n in 1..=35u64 {
        push_recent_block(&mut blocks, block(n));
    }
    assert_eq!(blocks.len(), 30);
    assert_eq!(blocks[0].number, 35);
    assert_eq!(blocks[29].number, 6);
    for i in 1..blocks.len() {
        assert!(blocks[i - 1].number > blocks[i].number);
    }
}

#[test]
fn window_ignores_stale_heads() {
    let mut blocks: Vec<Block> = Vec::new();
    push_recent_block(&mut blocks, block(10));
    push_recent_block(&mut blocks, block(9));
    push_recent_block(&mut blocks, block(10));
    assert_eq!(blocks.len(), 1);
    assert_eq!(blocks[0].number, 10);
    push_recent_block(&mut blocks, block(11));
    assert_eq!(blocks.len(), 2);
    assert_eq!(blocks[0].number, 11);
}

#[test]
fn request_encoding_matches_json_rpc() {
    assert_eq!(
        encode_request("eth_blockNumber", "[]", 0),
        "{\"jsonrpc\":\"2.0\",\"method\":\"eth_blockNumber\",\"params\":[],\"id\":0}"
    );
    assert_eq!(
        encode_request("eth_getBlockByNumber", &block_params(255), 1000),
        "{\"jsonrpc\":\"2.0\",\"method\":\"eth_getBlockByNumber\",\"params\":[\"0xff\",false],\"id\":1000}"
    );
}

#[test]
fn hex_quantities_are_lowercase_with_prefix() {
    assert_eq!(hex_quantity(0), "0x0");
    assert_eq!(hex_quantity(26), "0x1a");
    assert_eq!(hex_quantity(u64::MAX), "0xffffffffffffffff");
}

#[test]
fn rpc_client_keeps_its_endpoint() {
    let c = RpcClient::new("ws://localhost:8080");
    assert_eq!(c.endpoint(), "ws://localhost:8080");
}

#[test]
fn rpc_data_snapshot_is_a_deep_copy() {
    let mut d = RpcData::empty();
    d.block_number = 7;
    d.gas_price_wei = 1_000_000_000;
    d.client_version = "client/v1".to_string();
    push_recent_block(&mut d.recent_blocks, block(7));
    let c = d.snapshot();
    assert_eq!(c.block_number, 7);
    assert_eq!(c.gas_price_wei, 1_000_000_000);
    assert_eq!(c.client_version, "client/v1");
    assert_eq!(c.recent_blocks.len(), 1);
    assert_eq!(c.recent_blocks[0].number, 7);
    assert_eq!(c.recent_blocks[0].hash, d.recent_blocks[0].hash);
}
