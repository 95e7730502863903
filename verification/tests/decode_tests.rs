//! End-to-end tests of the decoders on concrete byte buffers: the happy
//! paths for every variant, every error kind, and the edge behaviour
//! around truncation, trailing bytes, and the executable flag.

use query_wire::DecodeError;
use query_wire::query_request::ChainSpecificQuery;
use query_wire::query_request::EthCallByTimestampQueryRequest;
use query_wire::query_request::EthCallQueryRequest;
use query_wire::query_request::EthCallWithFinalityQueryRequest;
use query_wire::query_request::PerChainQueryRequest;
use query_wire::query_request::QueryRequest;
use query_wire::query_request::SolanaAccountQueryRequest;
use query_wire::query_response::ChainSpecificResponse;
use query_wire::query_response::EthCallByTimestampQueryResponse;
use query_wire::query_response::EthCallQueryResponse;
use query_wire::query_response::EthCallWithFinalityQueryResponse;
use query_wire::query_response::PerChainQueryResponse;
use query_wire::query_response::QueryResponse;
use query_wire::query_response::SolanaAccountQueryResponse;

fn push_u16(buf: &mut Vec<u8>, x: u16) {
    buf.extend_from_slice(&x.to_be_bytes());
}

fn push_u32(buf: &mut Vec<u8>, x: u32) {
    buf.extend_from_slice(&x.to_be_bytes());
}

fn push_u64(buf: &mut Vec<u8>, x: u64) {
    buf.extend_from_slice(&x.to_be_bytes());
}

fn push_str(buf: &mut Vec<u8>, s: &str) {
    push_u32(buf, s.len() as u32);
    buf.extend_from_slice(s.as_bytes());
}

/// The minimal well-formed request: version 1, nonce 1, one per-chain
/// query for chain 2, an `EthCall` with block tag "latest" and no calls.
fn minimal_request_bytes() -> Vec<u8> {
    let mut buf = vec![0x01];
    push_u32(&mut buf, 1); // nonce
    buf.push(0x01); // one per-chain query
    push_u16(&mut buf, 0x0002); // chain id
    buf.push(0x01); // tag: EthCall
    push_u32(&mut buf, 0); // discarded payload length
    push_str(&mut buf, "latest");
    buf.push(0x00); // no call data
    buf
}

/// A well-formed response around the minimal request: `request_chain_id`
/// picks the identifier size, and the response list is empty.
fn minimal_response_bytes(request_chain_id: u16) -> Vec<u8> {
    let mut buf = vec![0x01];
    push_u16(&mut buf, request_chain_id);
    let id_len = if request_chain_id == 0 { 65 } else { 32 };
    buf.extend_from_slice(&vec![0xAB; id_len]);
    let request = minimal_request_bytes();
    push_u32(&mut buf, request.len() as u32); // discarded request length
    buf.extend_from_slice(&request);
    buf.push(0x00); // no per-chain responses
    buf
}

#[test]
fn decodes_minimal_eth_call_request() {
    let bytes = minimal_request_bytes();
    let req = QueryRequest::deserialize(&bytes).expect("well-formed request must decode");
    assert_eq!(req.version, 1);
    assert_eq!(req.nonce, 1);
    assert_eq!(req.requests.len(), 1);
    assert_eq!(req.requests[0].chain_id, 2);
    match &req.requests[0].query {
        ChainSpecificQuery::EthCallQueryRequest(q) => {
            assert_eq!(q.block_tag, "latest");
            assert!(q.call_data.is_empty());
        }
        _ => panic!("wrong variant"),
    }
}

#[test]
fn zero_queries_rejected() {
    let mut bytes = minimal_request_bytes();
    bytes[5] = 0x00; // per-chain query count
    assert_eq!(QueryRequest::deserialize(&bytes).unwrap_err(), DecodeError::ZeroQueries);
}

#[test]
fn request_version_mismatch_rejected() {
    let mut bytes = minimal_request_bytes();
    bytes[0] = 0x02;
    assert_eq!(QueryRequest::deserialize(&bytes).unwrap_err(), DecodeError::VersionMismatch);
}

#[test]
fn unsupported_query_tag_rejected() {
    let mut bytes = minimal_request_bytes();
    bytes[8] = 0x05; // tag byte after version, nonce, count, chain id
    assert_eq!(QueryRequest::deserialize(&bytes).unwrap_err(), DecodeError::UnsupportedQueryType);
    let mut bytes = minimal_request_bytes();
    bytes[8] = 0x00;
    assert_eq!(QueryRequest::deserialize(&bytes).unwrap_err(), DecodeError::UnsupportedQueryType);
}

#[test]
fn every_request_truncation_fails() {
    let bytes = minimal_request_bytes();
    for cut in 0..bytes.len() {
        assert!(
            QueryRequest::deserialize(&bytes[..cut]).is_err(),
            "truncation at {cut} must fail"
        );
    }
}

#[test]
fn empty_request_is_truncated() {
    assert_eq!(QueryRequest::deserialize(&[]).unwrap_err(), DecodeError::TruncatedInput);
}

#[test]
fn invalid_utf8_block_tag_rejected() {
    let mut buf = vec![0x01];
    push_u32(&mut buf, 7); // nonce
    buf.push(0x01);
    push_u16(&mut buf, 0x0002);
    buf.push(0x01);
    push_u32(&mut buf, 0);
    push_u32(&mut buf, 2); // block tag length
    buf.extend_from_slice(&[0xFF, 0xFE]); // not UTF-8
    buf.push(0x00);
    assert_eq!(QueryRequest::deserialize(&buf).unwrap_err(), DecodeError::InvalidText);
}

#[test]
fn oversized_declared_length_rejected_before_allocation() {
    let mut buf = vec![0x01];
    push_u32(&mut buf, 7);
    buf.push(0x01);
    push_u16(&mut buf, 0x0002);
    buf.push(0x01);
    push_u32(&mut buf, 0);
    push_u32(&mut buf, 0xFFFF_FFFF); // hostile block tag length
    assert_eq!(QueryRequest::deserialize(&buf).unwrap_err(), DecodeError::LengthOverflow);
}

#[test]
fn request_ignores_trailing_bytes() {
    let mut bytes = minimal_request_bytes();
    bytes.push(0xFF);
    let req = QueryRequest::deserialize(&bytes).expect("request decode ignores trailing bytes");
    assert_eq!(req.requests[0].chain_id, 2);
}

#[test]
fn decodes_eth_call_request_with_call_data() {
    let mut buf = Vec::new();
    push_str(&mut buf, "safe");
    buf.push(0x02); // two call-data entries
    buf.extend_from_slice(&[0x11; 20]);
    push_u32(&mut buf, 3);
    buf.extend_from_slice(&[0xAA, 0xBB, 0xCC]);
    buf.extend_from_slice(&[0x22; 20]);
    push_u32(&mut buf, 0);
    let q = EthCallQueryRequest::deserialize(&buf).expect("must decode");
    assert_eq!(q.block_tag, "safe");
    assert_eq!(q.call_data.len(), 2);
    assert_eq!(q.call_data[0].to, [0x11; 20]);
    assert_eq!(q.call_data[0].data, vec![0xAA, 0xBB, 0xCC]);
    assert_eq!(q.call_data[1].to, [0x22; 20]);
    assert!(q.call_data[1].data.is_empty());
}

#[test]
fn decodes_eth_call_by_timestamp_request() {
    let mut buf = Vec::new();
    push_u64(&mut buf, 1_700_000_000_000_000);
    push_str(&mut buf, "0x10");
    push_str(&mut buf, "0x11");
    buf.push(0x01);
    buf.extend_from_slice(&[0x33; 20]);
    push_u32(&mut buf, 1);
    buf.push(0x99);
    let q = EthCallByTimestampQueryRequest::deserialize(&buf).expect("must decode");
    assert_eq!(q.target_timestamp, 1_700_000_000_000_000);
    assert_eq!(q.target_block_hint, "0x10");
    assert_eq!(q.following_block_hint, "0x11");
    assert_eq!(q.call_data.len(), 1);
    assert_eq!(q.call_data[0].data, vec![0x99]);
}

#[test]
fn decodes_eth_call_with_finality_request() {
    let mut buf = Vec::new();
    push_str(&mut buf, "0x1234");
    push_str(&mut buf, "finalized");
    buf.push(0x00);
    let q = EthCallWithFinalityQueryRequest::deserialize(&buf).expect("must decode");
    assert_eq!(q.block_tag, "0x1234");
    assert_eq!(q.finality, "finalized");
    assert!(q.call_data.is_empty());
}

#[test]
fn decodes_solana_account_request() {
    let mut buf = Vec::new();
    push_str(&mut buf, "confirmed");
    push_u64(&mut buf, 42);
    push_u64(&mut buf, 8);
    push_u64(&mut buf, 16);
    buf.push(0x02);
    buf.extend_from_slice(&[0x44; 32]);
    buf.extend_from_slice(&[0x55; 32]);
    let q = SolanaAccountQueryRequest::deserialize(&buf).expect("must decode");
    assert_eq!(q.commitment, "confirmed");
    assert_eq!(q.min_context_slot, 42);
    assert_eq!(q.data_slice_offset, 8);
    assert_eq!(q.data_slice_length, 16);
    assert_eq!(q.accounts.len(), 2);
    assert_eq!(q.accounts[0], [0x44; 32]);
    assert_eq!(q.accounts[1], [0x55; 32]);
}

#[test]
fn per_chain_request_decodes_alone() {
    let mut buf = Vec::new();
    push_u16(&mut buf, 7);
    buf.push(0x01);
    push_u32(&mut buf, 0);
    push_str(&mut buf, "latest");
    buf.push(0x00);
    let q = PerChainQueryRequest::deserialize(&buf).expect("must decode");
    assert_eq!(q.chain_id, 7);
    assert!(matches!(q.query, ChainSpecificQuery::EthCallQueryRequest(_)));
}

#[test]
fn offchain_response_has_65_byte_request_id() {
    let bytes = minimal_response_bytes(0);
    let resp = QueryResponse::deserialize(&bytes).expect("must decode");
    assert_eq!(resp.request_chain_id, 0);
    assert_eq!(resp.request_id.len(), 65);
    assert_eq!(resp.request.requests[0].chain_id, 2);
}

#[test]
fn onchain_response_has_32_byte_request_id() {
    let bytes = minimal_response_bytes(5);
    let resp = QueryResponse::deserialize(&bytes).expect("must decode");
    assert_eq!(resp.request_chain_id, 5);
    assert_eq!(resp.request_id.len(), 32);
}

#[test]
fn trailing_byte_after_valid_response_rejected() {
    let mut bytes = minimal_response_bytes(0);
    bytes.push(0xFF);
    assert_eq!(QueryResponse::deserialize(&bytes).unwrap_err(), DecodeError::InvalidPayloadLength);
}

#[test]
fn response_version_mismatch_rejected() {
    let mut bytes = minimal_response_bytes(0);
    bytes[0] = 0x02;
    assert_eq!(QueryResponse::deserialize(&bytes).unwrap_err(), DecodeError::InvalidResponseVersion);
}

#[test]
fn every_response_truncation_fails() {
    let bytes = minimal_response_bytes(0);
    for cut in 0..bytes.len() {
        assert!(
            QueryResponse::deserialize(&bytes[..cut]).is_err(),
            "truncation at {cut} must fail"
        );
    }
}

fn eth_call_response_body() -> Vec<u8> {
    let mut buf = Vec::new();
    push_u64(&mut buf, 123_456);
    buf.extend_from_slice(&[0x77; 32]);
    push_u64(&mut buf, 1_700_000_000);
    buf.push(0x01);
    push_u32(&mut buf, 2);
    buf.extend_from_slice(&[0xDE, 0xAD]);
    buf
}

#[test]
fn decodes_eth_call_response() {
    let buf = eth_call_response_body();
    let v = EthCallQueryResponse::deserialize(&buf).expect("must decode");
    assert_eq!(v.block_number, 123_456);
    assert_eq!(v.block_hash, [0x77; 32]);
    assert_eq!(v.block_time, 1_700_000_000);
    assert_eq!(v.results, vec![vec![0xDE, 0xAD]]);
}

#[test]
fn finality_response_shares_eth_call_layout() {
    let buf = eth_call_response_body();
    let v = EthCallWithFinalityQueryResponse::deserialize(&buf).expect("must decode");
    assert_eq!(v.block_number, 123_456);
    assert_eq!(v.block_hash, [0x77; 32]);
    assert_eq!(v.block_time, 1_700_000_000);
    assert_eq!(v.results, vec![vec![0xDE, 0xAD]]);
}

#[test]
fn decodes_eth_call_by_timestamp_response() {
    let mut buf = Vec::new();
    push_u64(&mut buf, 100);
    buf.extend_from_slice(&[0x01; 32]);
    push_u64(&mut buf, 1_000);
    push_u64(&mut buf, 101);
    buf.extend_from_slice(&[0x02; 32]);
    push_u64(&mut buf, 1_001);
    buf.push(0x00);
    let v = EthCallByTimestampQueryResponse::deserialize(&buf).expect("must decode");
    assert_eq!(v.target_block_number, 100);
    assert_eq!(v.target_block_hash, [0x01; 32]);
    assert_eq!(v.target_block_time, 1_000);
    assert_eq!(v.following_block_number, 101);
    assert_eq!(v.following_block_hash, [0x02; 32]);
    assert_eq!(v.following_block_time, 1_001);
    assert!(v.results.is_empty());
}

fn solana_account_result_bytes(executable_byte: u8) -> Vec<u8> {
    let mut buf = Vec::new();
    push_u64(&mut buf, 5_000);
    push_u64(&mut buf, 300);
    buf.push(executable_byte);
    buf.extend_from_slice(&[0x66; 32]);
    push_u32(&mut buf, 1);
    buf.push(0x42);
    buf
}

#[test]
fn executable_flag_is_false_only_for_zero() {
    let mut buf = Vec::new();
    push_u64(&mut buf, 9); // slot number
    push_u64(&mut buf, 8); // block time
    buf.extend_from_slice(&[0x88; 32]);
    buf.push(0x03);
    buf.extend_from_slice(&solana_account_result_bytes(0x00));
    buf.extend_from_slice(&solana_account_result_bytes(0x01));
    buf.extend_from_slice(&solana_account_result_bytes(0xFF));
    let v = SolanaAccountQueryResponse::deserialize(&buf).expect("must decode");
    assert_eq!(v.slot_number, 9);
    assert_eq!(v.block_time, 8);
    assert_eq!(v.block_hash, [0x88; 32]);
    assert_eq!(v.results.len(), 3);
    assert!(!v.results[0].executable);
    assert!(v.results[1].executable);
    assert!(v.results[2].executable);
    assert_eq!(v.results[0].lamports, 5_000);
    assert_eq!(v.results[0].rent_epoch, 300);
    assert_eq!(v.results[0].owner, [0x66; 32]);
    assert_eq!(v.results[0].data, vec![0x42]);
}

#[test]
fn unsupported_response_tag_rejected() {
    let mut buf = Vec::new();
    push_u16(&mut buf, 2);
    buf.push(0x07); // tag outside the supported set
    push_u32(&mut buf, 0);
    assert_eq!(PerChainQueryResponse::deserialize(&buf).unwrap_err(), DecodeError::UnsupportedResponseType);
}

#[test]
fn full_response_with_per_chain_answer_roundtrips() {
    let mut buf = vec![0x01];
    push_u16(&mut buf, 2); // on-chain request: 32-byte identifier
    buf.extend_from_slice(&[0xCD; 32]);
    let request = minimal_request_bytes();
    push_u32(&mut buf, request.len() as u32);
    buf.extend_from_slice(&request);
    buf.push(0x01); // one per-chain response
    push_u16(&mut buf, 2);
    buf.push(0x01); // tag: EthCall
    push_u32(&mut buf, 0);
    buf.extend_from_slice(&eth_call_response_body());
    let resp = QueryResponse::deserialize(&buf).expect("must decode");
    assert_eq!(resp.version, 1);
    assert_eq!(resp.request_chain_id, 2);
    assert_eq!(resp.request_id, vec![0xCD; 32]);
    assert_eq!(resp.responses.len(), 1);
    assert_eq!(resp.responses[0].chain_id, 2);
    match &resp.responses[0].response {
        ChainSpecificResponse::EthCallQueryResponse(v) => {
            assert_eq!(v.block_number, 123_456);
            assert_eq!(v.results, vec![vec![0xDE, 0xAD]]);
        }
        _ => panic!("wrong variant"),
    }
}

#[test]
fn response_missing_declared_answer_rejected() {
    let mut bytes = minimal_response_bytes(0);
    let last = bytes.len() - 1;
    bytes[last] = 0x01; // declares one per-chain response, then ends
    assert!(QueryResponse::deserialize(&bytes).is_err());
}

#[test]
fn decoding_twice_gives_equal_results() {
    let bytes = minimal_request_bytes();
    let a = QueryRequest::deserialize(&bytes).expect("must decode");
    let b = QueryRequest::deserialize(&bytes).expect("must decode");
    assert_eq!(a.version, b.version);
    assert_eq!(a.nonce, b.nonce);
    assert_eq!(a.requests.len(), b.requests.len());
    assert_eq!(a.requests[0].chain_id, b.requests[0].chain_id);
}

#[test]
fn multi_query_request_keeps_order_and_big_endian_values() {
    let mut buf = vec![0x01];
    push_u32(&mut buf, 0x0102_0304); // nonce, big-endian
    buf.push(0x04); // four per-chain queries
    // chain 0x0102, EthCall
    push_u16(&mut buf, 0x0102);
    buf.push(0x01);
    push_u32(&mut buf, 0);
    push_str(&mut buf, "latest");
    buf.push(0x00);
    // chain 3, EthCallByTimestamp
    push_u16(&mut buf, 3);
    buf.push(0x02);
    push_u32(&mut buf, 0);
    push_u64(&mut buf, 0x0807_0605_0403_0201);
    push_str(&mut buf, "a");
    push_str(&mut buf, "b");
    buf.push(0x00);
    // chain 4, EthCallWithFinality
    push_u16(&mut buf, 4);
    buf.push(0x03);
    push_u32(&mut buf, 0);
    push_str(&mut buf, "0x1");
    push_str(&mut buf, "safe");
    buf.push(0x00);
    // chain 5, SolanaAccount
    push_u16(&mut buf, 5);
    buf.push(0x04);
    push_u32(&mut buf, 0);
    push_str(&mut buf, "finalized");
    push_u64(&mut buf, 1);
    push_u64(&mut buf, 2);
    push_u64(&mut buf, 3);
    buf.push(0x01);
    buf.extend_from_slice(&[0x10; 32]);
    let req = QueryRequest::deserialize(&buf).expect("must decode");
    assert_eq!(req.nonce, 16_909_060); // 0x01020304
    assert_eq!(req.requests.len(), 4);
    assert_eq!(req.requests[0].chain_id, 258); // 0x0102
    assert!(matches!(req.requests[0].query, ChainSpecificQuery::EthCallQueryRequest(_)));
    match &req.requests[1].query {
        ChainSpecificQuery::EthCallByTimestampQueryRequest(q) => {
            assert_eq!(q.target_timestamp, 0x0807_0605_0403_0201);
        }
        _ => panic!("wrong variant in slot 1"),
    }
    assert!(matches!(
        req.requests[2].query,
        ChainSpecificQuery::EthCallWithFinalityQueryRequest(_)
    ));
    assert!(matches!(req.requests[3].query, ChainSpecificQuery::SolanaAccountQueryRequest(_)));
}

#[test]
fn embedded_request_error_propagates_through_response() {
    let mut bytes = minimal_response_bytes(0);
    // The embedded request starts after version, the 65-byte identifier,
    // and the discarded length; its per-chain count byte sits 5 bytes in.
    let request_start = 1 + 2 + 65 + 4;
    bytes[request_start + 5] = 0x00;
    assert_eq!(QueryResponse::deserialize(&bytes).unwrap_err(), DecodeError::ZeroQueries);
}

#[test]
fn empty_string_field_decodes_empty() {
    let mut buf = Vec::new();
    push_str(&mut buf, "");
    buf.push(0x00);
    let q = EthCallQueryRequest::deserialize(&buf).expect("must decode");
    assert_eq!(q.block_tag, "");
    assert!(q.call_data.is_empty());
}

#[test]
fn max_count_of_accounts_decodes() {
    let mut buf = Vec::new();
    push_str(&mut buf, "processed");
    push_u64(&mut buf, 0);
    push_u64(&mut buf, 0);
    push_u64(&mut buf, 0);
    buf.push(0xFF); // the largest count a single byte can declare
    for i in 0..255u32 {
        buf.extend_from_slice(&[i as u8; 32]);
    }
    let q = SolanaAccountQueryRequest::deserialize(&buf).expect("must decode");
    assert_eq!(q.accounts.len(), 255);
    assert_eq!(q.accounts[254], [254u8; 32]);
}
