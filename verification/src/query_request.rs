//! The request side of the wire format: a `QueryRequest` carries a version
//! byte, a nonce, and a non-empty ordered list of per-chain queries, each a
//! tagged chain-specific variant.
//!
//! Each structure has a specification-level parser over `Seq<u8>` that is
//! the ground truth for what its bytes mean, and an executable decoder
//! proved to agree with it exactly.

use vstd::prelude::*;

use crate::error::DecodeError;
use crate::reader::Reader;
use crate::reader::parse_fixed_bytes;
use crate::reader::parse_len_prefixed_bytes;
use crate::reader::parse_u16_be;
use crate::reader::parse_u32_be;
use crate::reader::parse_u64_be;
use crate::reader::parse_u8;
use crate::reader::parse_utf8_string;

verus! {

/// The only supported request version byte.
pub const REQUEST_VERSION: u8 = 1;

// ---------------------------------------------------------------------------
// Mathematical views of the decoded values
// ---------------------------------------------------------------------------
/// One entry of a call-data list: a 20-byte address and an opaque payload.
#[verifier::ext_equal]
pub ghost struct EthCallDataView {
    pub to: Seq<u8>,
    pub data: Seq<u8>,
}

/// A call against a chain state named by a block tag.
#[verifier::ext_equal]
pub ghost struct EthCallQueryRequestView {
    pub block_tag: Seq<char>,
    pub call_data: Seq<EthCallDataView>,
}

/// A call against the chain state nearest a target timestamp.
#[verifier::ext_equal]
pub ghost struct EthCallByTimestampQueryRequestView {
    pub target_timestamp: u64,
    pub target_block_hint: Seq<char>,
    pub following_block_hint: Seq<char>,
    pub call_data: Seq<EthCallDataView>,
}

/// A call against a chain state with a named finality level.
#[verifier::ext_equal]
pub ghost struct EthCallWithFinalityQueryRequestView {
    pub block_tag: Seq<char>,
    pub finality: Seq<char>,
    pub call_data: Seq<EthCallDataView>,
}

/// A snapshot request for a set of 32-byte account keys.
#[verifier::ext_equal]
pub ghost struct SolanaAccountQueryRequestView {
    pub commitment: Seq<char>,
    pub min_context_slot: u64,
    pub data_slice_offset: u64,
    pub data_slice_length: u64,
    pub accounts: Seq<Seq<u8>>,
}

/// The closed set of chain-specific query variants, selected by the tag
/// byte of the enclosing per-chain query.
#[verifier::ext_equal]
pub ghost enum ChainSpecificQueryView {
    EthCallQueryRequest(EthCallQueryRequestView),
    EthCallByTimestampQueryRequest(EthCallByTimestampQueryRequestView),
    EthCallWithFinalityQueryRequest(EthCallWithFinalityQueryRequestView),
    SolanaAccountQueryRequest(SolanaAccountQueryRequestView),
}

/// One chain-scoped query within a batched request.
#[verifier::ext_equal]
pub ghost struct PerChainQueryRequestView {
    pub chain_id: u16,
    pub query: ChainSpecificQueryView,
}

/// A whole decoded request message.
#[verifier::ext_equal]
pub ghost struct QueryRequestView {
    pub version: u8,
    pub nonce: u32,
    pub requests: Seq<PerChainQueryRequestView>,
}

// ---------------------------------------------------------------------------
// Specification-level parsers
// ---------------------------------------------------------------------------
/// Parse one call-data entry: a 20-byte address, then length-prefixed data.
pub open spec fn parse_eth_call_data(s: Seq<u8>, i: int) -> Result<
    (EthCallDataView, int),
    DecodeError,
> {
    match parse_fixed_bytes(s, i, 20) {
        Ok((to, j)) => match parse_len_prefixed_bytes(s, j) {
            Ok((data, k)) => Ok((EthCallDataView { to, data }, k)),
            Err(e) => Err(e),
        },
        Err(e) => Err(e),
    }
}

/// Parse `n` consecutive call-data entries.
pub open spec fn parse_eth_call_data_list(s: Seq<u8>, i: int, n: nat) -> Result<
    (Seq<EthCallDataView>, int),
    DecodeError,
>
    decreases n,
{
    if n == 0 {
        if 0 <= i <= s.len() {
            Ok((Seq::empty(), i))
        } else {
            Err(DecodeError::TruncatedInput)
        }
    } else {
        match parse_eth_call_data(s, i) {
            Ok((d, j)) => match parse_eth_call_data_list(s, j, (n - 1) as nat) {
                Ok((ds, k)) => Ok((seq![d] + ds, k)),
                Err(e) => Err(e),
            },
            Err(e) => Err(e),
        }
    }
}

/// Parse a one-byte count followed by that many call-data entries.
pub open spec fn parse_call_data_section(s: Seq<u8>, i: int) -> Result<
    (Seq<EthCallDataView>, int),
    DecodeError,
> {
    match parse_u8(s, i) {
        Ok((count, j)) => parse_eth_call_data_list(s, j, count as nat),
        Err(e) => Err(e),
    }
}

/// Parse the body of an `EthCall` query.
pub open spec fn parse_eth_call_request(s: Seq<u8>, i: int) -> Result<
    (EthCallQueryRequestView, int),
    DecodeError,
> {
    match parse_utf8_string(s, i) {
        Ok((block_tag, j)) => match parse_call_data_section(s, j) {
            Ok((call_data, k)) => Ok((EthCallQueryRequestView { block_tag, call_data }, k)),
            Err(e) => Err(e),
        },
        Err(e) => Err(e),
    }
}

/// Parse the body of an `EthCallByTimestamp` query.
pub open spec fn parse_eth_call_by_timestamp_request(s: Seq<u8>, i: int) -> Result<
    (EthCallByTimestampQueryRequestView, int),
    DecodeError,
> {
    match parse_u64_be(s, i) {
        Ok((target_timestamp, j)) => match parse_utf8_string(s, j) {
            Ok((target_block_hint, k)) => match parse_utf8_string(s, k) {
                Ok((following_block_hint, m)) => match parse_call_data_section(s, m) {
                    Ok((call_data, n)) => Ok(
                        (
                            EthCallByTimestampQueryRequestView {
                                target_timestamp,
                                target_block_hint,
                                following_block_hint,
                                call_data,
                            },
                            n,
                        ),
                    ),
                    Err(e) => Err(e),
                },
                Err(e) => Err(e),
            },
            Err(e) => Err(e),
        },
        Err(e) => Err(e),
    }
}

/// Parse the body of an `EthCallWithFinality` query.
pub open spec fn parse_eth_call_with_finality_request(s: Seq<u8>, i: int) -> Result<
    (EthCallWithFinalityQueryRequestView, int),
    DecodeError,
> {
    match parse_utf8_string(s, i) {
        Ok((block_tag, j)) => match parse_utf8_string(s, j) {
            Ok((finality, k)) => match parse_call_data_section(s, k) {
                Ok((call_data, m)) => Ok(
                    (EthCallWithFinalityQueryRequestView { block_tag, finality, call_data }, m),
                ),
                Err(e) => Err(e),
            },
            Err(e) => Err(e),
        },
        Err(e) => Err(e),
    }
}

/// Parse `n` consecutive 32-byte account keys.
pub open spec fn parse_account_list(s: Seq<u8>, i: int, n: nat) -> Result<
    (Seq<Seq<u8>>, int),
    DecodeError,
>
    decreases n,
{
    if n == 0 {
        if 0 <= i <= s.len() {
            Ok((Seq::empty(), i))
        } else {
            Err(DecodeError::TruncatedInput)
        }
    } else {
        match parse_fixed_bytes(s, i, 32) {
            Ok((a, j)) => match parse_account_list(s, j, (n - 1) as nat) {
                Ok((rest, k)) => Ok((seq![a] + rest, k)),
                Err(e) => Err(e),
            },
            Err(e) => Err(e),
        }
    }
}

/// Parse a one-byte count followed by that many 32-byte account keys.
pub open spec fn parse_accounts_section(s: Seq<u8>, i: int) -> Result<
    (Seq<Seq<u8>>, int),
    DecodeError,
> {
    match parse_u8(s, i) {
        Ok((count, j)) => parse_account_list(s, j, count as nat),
        Err(e) => Err(e),
    }
}

/// Parse the body of a `SolanaAccount` query.
pub open spec fn parse_solana_account_request(s: Seq<u8>, i: int) -> Result<
    (SolanaAccountQueryRequestView, int),
    DecodeError,
> {
    match parse_utf8_string(s, i) {
        Ok((commitment, j)) => match parse_u64_be(s, j) {
            Ok((min_context_slot, k)) => match parse_u64_be(s, k) {
                Ok((data_slice_offset, m)) => match parse_u64_be(s, m) {
                    Ok((data_slice_length, n)) => match parse_accounts_section(s, n) {
                        Ok((accounts, p)) => Ok(
                            (
                                SolanaAccountQueryRequestView {
                                    commitment,
                                    min_context_slot,
                                    data_slice_offset,
                                    data_slice_length,
                                    accounts,
                                },
                                p,
                            ),
                        ),
                        Err(e) => Err(e),
                    },
                    Err(e) => Err(e),
                },
                Err(e) => Err(e),
            },
            Err(e) => Err(e),
        },
        Err(e) => Err(e),
    }
}

/// Dispatch on the one-byte query tag. Only tags 1 through 4 are valid;
/// every other tag fails the whole decode.
pub open spec fn parse_chain_specific_query(s: Seq<u8>, i: int, tag: u8) -> Result<
    (ChainSpecificQueryView, int),
    DecodeError,
> {
    if tag == 1 {
        match parse_eth_call_request(s, i) {
            Ok((q, j)) => Ok((ChainSpecificQueryView::EthCallQueryRequest(q), j)),
            Err(e) => Err(e),
        }
    } else if tag == 2 {
        match parse_eth_call_by_timestamp_request(s, i) {
            Ok((q, j)) => Ok((ChainSpecificQueryView::EthCallByTimestampQueryRequest(q), j)),
            Err(e) => Err(e),
        }
    } else if tag == 3 {
        match parse_eth_call_with_finality_request(s, i) {
            Ok((q, j)) => Ok((ChainSpecificQueryView::EthCallWithFinalityQueryRequest(q), j)),
            Err(e) => Err(e),
        }
    } else if tag == 4 {
        match parse_solana_account_request(s, i) {
            Ok((q, j)) => Ok((ChainSpecificQueryView::SolanaAccountQueryRequest(q), j)),
            Err(e) => Err(e),
        }
    } else {
        Err(DecodeError::UnsupportedQueryType)
    }
}

/// Parse one per-chain query: chain id, tag byte, a four-byte payload
/// length that is read and discarded, then the tagged variant body.
pub open spec fn parse_per_chain_query_request(s: Seq<u8>, i: int) -> Result<
    (PerChainQueryRequestView, int),
    DecodeError,
> {
    match parse_u16_be(s, i) {
        Ok((chain_id, j)) => match parse_u8(s, j) {
            Ok((tag, k)) => match parse_u32_be(s, k) {
                Ok((_len, m)) => match parse_chain_specific_query(s, m, tag) {
                    Ok((query, n)) => Ok((PerChainQueryRequestView { chain_id, query }, n)),
                    Err(e) => Err(e),
                },
                Err(e) => Err(e),
            },
            Err(e) => Err(e),
        },
        Err(e) => Err(e),
    }
}

/// Parse `n` consecutive per-chain queries.
pub open spec fn parse_per_chain_query_request_list(s: Seq<u8>, i: int, n: nat) -> Result<
    (Seq<PerChainQueryRequestView>, int),
    DecodeError,
>
    decreases n,
{
    if n == 0 {
        if 0 <= i <= s.len() {
            Ok((Seq::empty(), i))
        } else {
            Err(DecodeError::TruncatedInput)
        }
    } else {
        match parse_per_chain_query_request(s, i) {
            Ok((q, j)) => match parse_per_chain_query_request_list(s, j, (n - 1) as nat) {
                Ok((qs, k)) => Ok((seq![q] + qs, k)),
                Err(e) => Err(e),
            },
            Err(e) => Err(e),
        }
    }
}

/// Parse a whole request message starting at position `i`: version byte
/// (must be the supported version), nonce, a per-chain query count that
/// must be at least one, then that many per-chain queries in order.
pub open spec fn parse_query_request(s: Seq<u8>, i: int) -> Result<
    (QueryRequestView, int),
    DecodeError,
> {
    match parse_u8(s, i) {
        Ok((version, j)) => {
            if version != REQUEST_VERSION {
                Err(DecodeError::VersionMismatch)
            } else {
                match parse_u32_be(s, j) {
                    Ok((nonce, k)) => match parse_u8(s, k) {
                        Ok((count, m)) => {
                            if count == 0 {
                                Err(DecodeError::ZeroQueries)
                            } else {
                                match parse_per_chain_query_request_list(s, m, count as nat) {
                                    Ok((requests, n)) => Ok(
                                        (QueryRequestView { version, nonce, requests }, n),
                                    ),
                                    Err(e) => Err(e),
                                }
                            }
                        },
                        Err(e) => Err(e),
                    },
                    Err(e) => Err(e),
                }
            }
        },
        Err(e) => Err(e),
    }
}

/// What decoding a whole request buffer yields. Trailing bytes after the
/// last per-chain query are ignored on the request side.
pub open spec fn spec_decode_query_request(s: Seq<u8>) -> Result<QueryRequestView, DecodeError> {
    match parse_query_request(s, 0) {
        Ok((v, _n)) => Ok(v),
        Err(e) => Err(e),
    }
}

// ---------------------------------------------------------------------------
// Decoded values and their verified decoders
// ---------------------------------------------------------------------------
/// A whole decoded request message.
#[derive(Debug)]
pub struct QueryRequest {
    pub version: u8,
    pub nonce: u32,
    pub requests: Vec<PerChainQueryRequest>,
}

/// One chain-scoped query within a batched request.
#[derive(Debug)]
pub struct PerChainQueryRequest {
    pub chain_id: u16,
    pub query: ChainSpecificQuery,
}

/// The closed set of chain-specific query variants.
#[derive(Debug)]
pub enum ChainSpecificQuery {
    EthCallQueryRequest(EthCallQueryRequest),
    EthCallByTimestampQueryRequest(EthCallByTimestampQueryRequest),
    EthCallWithFinalityQueryRequest(EthCallWithFinalityQueryRequest),
    SolanaAccountQueryRequest(SolanaAccountQueryRequest),
}

/// A call against a chain state named by a block tag.
#[derive(Debug)]
pub struct EthCallQueryRequest {
    pub block_tag: String,
    pub call_data: Vec<EthCallData>,
}

/// One entry of a call-data list: a 20-byte address and an opaque payload.
#[derive(Debug)]
pub struct EthCallData {
    pub to: [u8; 20],
    pub data: Vec<u8>,
}

/// A call against the chain state nearest a target timestamp.
#[derive(Debug)]
pub struct EthCallByTimestampQueryRequest {
    pub target_timestamp: u64,
    pub target_block_hint: String,
    pub following_block_hint: String,
    pub call_data: Vec<EthCallData>,
}

/// A call against a chain state with a named finality level.
#[derive(Debug)]
pub struct EthCallWithFinalityQueryRequest {
    pub block_tag: String,
    pub finality: String,
    pub call_data: Vec<EthCallData>,
}

/// A snapshot request for a set of 32-byte account keys.
#[derive(Debug)]
pub struct SolanaAccountQueryRequest {
    pub commitment: String,
    pub min_context_slot: u64,
    pub data_slice_offset: u64,
    pub data_slice_length: u64,
    pub accounts: Vec<[u8; 32]>,
}

impl DeepView for EthCallData {
    type V = EthCallDataView;

    open spec fn deep_view(&self) -> EthCallDataView {
        EthCallDataView { to: self.to@, data: self.data@ }
    }
}

impl DeepView for EthCallQueryRequest {
    type V = EthCallQueryRequestView;

    open spec fn deep_view(&self) -> EthCallQueryRequestView {
        EthCallQueryRequestView {
            block_tag: self.block_tag@,
            call_data: self.call_data.deep_view(),
        }
    }
}

impl DeepView for EthCallByTimestampQueryRequest {
    type V = EthCallByTimestampQueryRequestView;

    open spec fn deep_view(&self) -> EthCallByTimestampQueryRequestView {
        EthCallByTimestampQueryRequestView {
            target_timestamp: self.target_timestamp,
            target_block_hint: self.target_block_hint@,
            following_block_hint: self.following_block_hint@,
            call_data: self.call_data.deep_view(),
        }
    }
}

impl DeepView for EthCallWithFinalityQueryRequest {
    type V = EthCallWithFinalityQueryRequestView;

    open spec fn deep_view(&self) -> EthCallWithFinalityQueryRequestView {
        EthCallWithFinalityQueryRequestView {
            block_tag: self.block_tag@,
            finality: self.finality@,
            call_data: self.call_data.deep_view(),
        }
    }
}

impl DeepView for SolanaAccountQueryRequest {
    type V = SolanaAccountQueryRequestView;

    open spec fn deep_view(&self) -> SolanaAccountQueryRequestView {
        SolanaAccountQueryRequestView {
            commitment: self.commitment@,
            min_context_slot: self.min_context_slot,
            data_slice_offset: self.data_slice_offset,
            data_slice_length: self.data_slice_length,
            accounts: self.accounts.deep_view(),
        }
    }
}

impl DeepView for ChainSpecificQuery {
    type V = ChainSpecificQueryView;

    open spec fn deep_view(&self) -> ChainSpecificQueryView {
        match self {
            ChainSpecificQuery::EthCallQueryRequest(q) => ChainSpecificQueryView::EthCallQueryRequest(
                q.deep_view(),
            ),
            ChainSpecificQuery::EthCallByTimestampQueryRequest(
                q,
            ) => ChainSpecificQueryView::EthCallByTimestampQueryRequest(q.deep_view()),
            ChainSpecificQuery::EthCallWithFinalityQueryRequest(
                q,
            ) => ChainSpecificQueryView::EthCallWithFinalityQueryRequest(q.deep_view()),
            ChainSpecificQuery::SolanaAccountQueryRequest(
                q,
            ) => ChainSpecificQueryView::SolanaAccountQueryRequest(q.deep_view()),
        }
    }
}

impl DeepView for PerChainQueryRequest {
    type V = PerChainQueryRequestView;

    open spec fn deep_view(&self) -> PerChainQueryRequestView {
        PerChainQueryRequestView { chain_id: self.chain_id, query: self.query.deep_view() }
    }
}

impl DeepView for QueryRequest {
    type V = QueryRequestView;

    open spec fn deep_view(&self) -> QueryRequestView {
        QueryRequestView {
            version: self.version,
            nonce: self.nonce,
            requests: self.requests.deep_view(),
        }
    }
}

/// Read one call-data entry.
fn read_eth_call_data(rdr: &mut Reader) -> (r: Result<EthCallData, DecodeError>)
    requires
        old(rdr).wf(),
    ensures
        final(rdr).wf(),
        final(rdr).bytes() == old(rdr).bytes(),
        match r {
            Ok(d) => parse_eth_call_data(old(rdr).bytes(), old(rdr).pos()) == Ok::<
                (EthCallDataView, int),
                DecodeError,
            >((d.deep_view(), final(rdr).pos())),
            Err(e) => parse_eth_call_data(old(rdr).bytes(), old(rdr).pos()) == Err::<
                (EthCallDataView, int),
                DecodeError,
            >(e),
        },
{
    let to = match rdr.read_array::<20>() {
        Ok(a) => a,
        Err(e) => {
            return Err(e);
        },
    };
    let data = match rdr.read_len_prefixed_bytes() {
        Ok(v) => v,
        Err(e) => {
            return Err(e);
        },
    };
    Ok(EthCallData { to, data })
}

/// Read a one-byte count followed by that many call-data entries.
#[verifier::loop_isolation(false)]
fn read_call_data_section(rdr: &mut Reader) -> (r: Result<Vec<EthCallData>, DecodeError>)
    requires
        old(rdr).wf(),
    ensures
        final(rdr).wf(),
        final(rdr).bytes() == old(rdr).bytes(),
        match r {
            Ok(v) => parse_call_data_section(old(rdr).bytes(), old(rdr).pos()) == Ok::<
                (Seq<EthCallDataView>, int),
                DecodeError,
            >((v.deep_view(), final(rdr).pos())),
            Err(e) => parse_call_data_section(old(rdr).bytes(), old(rdr).pos()) == Err::<
                (Seq<EthCallDataView>, int),
                DecodeError,
            >(e),
        },
{
    let count = match rdr.read_u8() {
        Ok(c) => c,
        Err(e) => {
            return Err(e);
        },
    };
    let ghost s = rdr.bytes();
    let ghost j0 = rdr.pos();
    let mut out: Vec<EthCallData> = Vec::new();
    let mut idx: u8 = 0;
    while idx < count
        invariant
            rdr.wf(),
            rdr.bytes() == s,
            idx <= count,
            out.deep_view().len() == idx as int,
            match parse_eth_call_data_list(s, rdr.pos(), (count - idx) as nat) {
                Ok((ds, k)) => parse_eth_call_data_list(s, j0, count as nat) == Ok::<
                    (Seq<EthCallDataView>, int),
                    DecodeError,
                >((out.deep_view() + ds, k)),
                Err(e) => parse_eth_call_data_list(s, j0, count as nat) == Err::<
                    (Seq<EthCallDataView>, int),
                    DecodeError,
                >(e),
            },
        decreases count - idx,
    {
        let d = match read_eth_call_data(rdr) {
            Ok(d) => d,
            Err(e) => {
                return Err(e);
            },
        };
        let ghost prev = out.deep_view();
        let ghost dv = d.deep_view();
        proof {
            match parse_eth_call_data_list(s, rdr.pos(), (count - idx - 1) as nat) {
                Ok((ds, k)) => {
                    assert(prev + (seq![dv] + ds) =~= (prev + seq![dv]) + ds);
                },
                Err(_) => {},
            }
        }
        out.push(d);
        idx = idx + 1;
        proof {
            assert(out.deep_view() =~= prev + seq![dv]);
        }
    }
    proof {
        assert(out.deep_view() + Seq::<EthCallDataView>::empty() =~= out.deep_view());
    }
    Ok(out)
}

impl EthCallQueryRequest {
    /// Decode an `EthCall` query body from the front of `data`.
    pub fn deserialize(data: &[u8]) -> (r: Result<EthCallQueryRequest, DecodeError>)
        ensures
            match r {
                Ok(v) => parse_eth_call_request(data@, 0) matches Ok(p) && p.0 == v.deep_view(),
                Err(e) => parse_eth_call_request(data@, 0) matches Err(pe) && pe == e,
            },
    {
        let mut rdr = Reader::new(data);
        Self::deserialize_from_reader(&mut rdr)
    }

    /// Decode an `EthCall` query body, advancing the shared cursor.
    pub fn deserialize_from_reader(rdr: &mut Reader) -> (r: Result<
        EthCallQueryRequest,
        DecodeError,
    >)
        requires
            old(rdr).wf(),
        ensures
            final(rdr).wf(),
            final(rdr).bytes() == old(rdr).bytes(),
            match r {
                Ok(v) => parse_eth_call_request(old(rdr).bytes(), old(rdr).pos()) == Ok::<
                    (EthCallQueryRequestView, int),
                    DecodeError,
                >((v.deep_view(), final(rdr).pos())),
                Err(e) => parse_eth_call_request(old(rdr).bytes(), old(rdr).pos()) == Err::<
                    (EthCallQueryRequestView, int),
                    DecodeError,
                >(e),
            },
    {
        let block_tag = match rdr.read_string() {
            Ok(s) => s,
            Err(e) => {
                return Err(e);
            },
        };
        let call_data = match read_call_data_section(rdr) {
            Ok(v) => v,
            Err(e) => {
                return Err(e);
            },
        };
        Ok(EthCallQueryRequest { block_tag, call_data })
    }
}

impl EthCallByTimestampQueryRequest {
    /// Decode an `EthCallByTimestamp` query body from the front of `data`.
    pub fn deserialize(data: &[u8]) -> (r: Result<EthCallByTimestampQueryRequest, DecodeError>)
        ensures
            match r {
                Ok(v) => parse_eth_call_by_timestamp_request(data@, 0) matches Ok(p) && p.0
                    == v.deep_view(),
                Err(e) => parse_eth_call_by_timestamp_request(data@, 0) matches Err(pe) && pe == e,
            },
    {
        let mut rdr = Reader::new(data);
        Self::deserialize_from_reader(&mut rdr)
    }

    /// Decode an `EthCallByTimestamp` query body, advancing the shared
    /// cursor.
    pub fn deserialize_from_reader(rdr: &mut Reader) -> (r: Result<
        EthCallByTimestampQueryRequest,
        DecodeError,
    >)
        requires
            old(rdr).wf(),
        ensures
            final(rdr).wf(),
            final(rdr).bytes() == old(rdr).bytes(),
            match r {
                Ok(v) => parse_eth_call_by_timestamp_request(old(rdr).bytes(), old(rdr).pos())
                    == Ok::<(EthCallByTimestampQueryRequestView, int), DecodeError>(
                    (v.deep_view(), final(rdr).pos()),
                ),
                Err(e) => parse_eth_call_by_timestamp_request(old(rdr).bytes(), old(rdr).pos())
                    == Err::<(EthCallByTimestampQueryRequestView, int), DecodeError>(e),
            },
    {
        let target_timestamp = match rdr.read_u64_be() {
            Ok(x) => x,
            Err(e) => {
                return Err(e);
            },
        };
        let target_block_hint = match rdr.read_string() {
            Ok(s) => s,
            Err(e) => {
                return Err(e);
            },
        };
        let following_block_hint = match rdr.read_string() {
            Ok(s) => s,
            Err(e) => {
                return Err(e);
            },
        };
        let call_data = match read_call_data_section(rdr) {
            Ok(v) => v,
            Err(e) => {
                return Err(e);
            },
        };
        Ok(
            EthCallByTimestampQueryRequest {
                target_timestamp,
                target_block_hint,
                following_block_hint,
                call_data,
            },
        )
    }
}

impl EthCallWithFinalityQueryRequest {
    /// Decode an `EthCallWithFinality` query body from the front of `data`.
    pub fn deserialize(data: &[u8]) -> (r: Result<EthCallWithFinalityQueryRequest, DecodeError>)
        ensures
            match r {
                Ok(v) => parse_eth_call_with_finality_request(data@, 0) matches Ok(p) && p.0
                    == v.deep_view(),
                Err(e) => parse_eth_call_with_finality_request(data@, 0) matches Err(pe) && pe == e,
            },
    {
        let mut rdr = Reader::new(data);
        Self::deserialize_from_reader(&mut rdr)
    }

    /// Decode an `EthCallWithFinality` query body, advancing the shared
    /// cursor.
    pub fn deserialize_from_reader(rdr: &mut Reader) -> (r: Result<
        EthCallWithFinalityQueryRequest,
        DecodeError,
    >)
        requires
            old(rdr).wf(),
        ensures
            final(rdr).wf(),
            final(rdr).bytes() == old(rdr).bytes(),
            match r {
                Ok(v) => parse_eth_call_with_finality_request(old(rdr).bytes(), old(rdr).pos())
                    == Ok::<(EthCallWithFinalityQueryRequestView, int), DecodeError>(
                    (v.deep_view(), final(rdr).pos()),
                ),
                Err(e) => parse_eth_call_with_finality_request(old(rdr).bytes(), old(rdr).pos())
                    == Err::<(EthCallWithFinalityQueryRequestView, int), DecodeError>(e),
            },
    {
        let block_tag = match rdr.read_string() {
            Ok(s) => s,
            Err(e) => {
                return Err(e);
            },
        };
        let finality = match rdr.read_string() {
            Ok(s) => s,
            Err(e) => {
                return Err(e);
            },
        };
        let call_data = match read_call_data_section(rdr) {
            Ok(v) => v,
            Err(e) => {
                return Err(e);
            },
        };
        Ok(EthCallWithFinalityQueryRequest { block_tag, finality, call_data })
    }
}

/// Read a one-byte count followed by that many 32-byte account keys.
#[verifier::loop_isolation(false)]
fn read_accounts_section(rdr: &mut Reader) -> (r: Result<Vec<[u8; 32]>, DecodeError>)
    requires
        old(rdr).wf(),
    ensures
        final(rdr).wf(),
        final(rdr).bytes() == old(rdr).bytes(),
        match r {
            Ok(v) => parse_accounts_section(old(rdr).bytes(), old(rdr).pos()) == Ok::<
                (Seq<Seq<u8>>, int),
                DecodeError,
            >((v.deep_view(), final(rdr).pos())),
            Err(e) => parse_accounts_section(old(rdr).bytes(), old(rdr).pos()) == Err::<
                (Seq<Seq<u8>>, int),
                DecodeError,
            >(e),
        },
{
    let count = match rdr.read_u8() {
        Ok(c) => c,
        Err(e) => {
            return Err(e);
        },
    };
    let ghost s = rdr.bytes();
    let ghost j0 = rdr.pos();
    let mut out: Vec<[u8; 32]> = Vec::new();
    let mut idx: u8 = 0;
    while idx < count
        invariant
            rdr.wf(),
            rdr.bytes() == s,
            idx <= count,
            out.deep_view().len() == idx as int,
            match parse_account_list(s, rdr.pos(), (count - idx) as nat) {
                Ok((ds, k)) => parse_account_list(s, j0, count as nat) == Ok::<
                    (Seq<Seq<u8>>, int),
                    DecodeError,
                >((out.deep_view() + ds, k)),
                Err(e) => parse_account_list(s, j0, count as nat) == Err::<
                    (Seq<Seq<u8>>, int),
                    DecodeError,
                >(e),
            },
        decreases count - idx,
    {
        let a = match rdr.read_array::<32>() {
            Ok(a) => a,
            Err(e) => {
                return Err(e);
            },
        };
        let ghost prev = out.deep_view();
        let ghost av = a.deep_view();
        proof {
            assert(av =~= a@);
            match parse_account_list(s, rdr.pos(), (count - idx - 1) as nat) {
                Ok((ds, k)) => {
                    assert(prev + (seq![av] + ds) =~= (prev + seq![av]) + ds);
                },
                Err(_) => {},
            }
        }
        out.push(a);
        idx = idx + 1;
        proof {
            assert(out.deep_view() =~= prev + seq![av]);
        }
    }
    proof {
        assert(out.deep_view() + Seq::<Seq<u8>>::empty() =~= out.deep_view());
    }
    Ok(out)
}

impl SolanaAccountQueryRequest {
    /// Decode a `SolanaAccount` query body from the front of `data`.
    pub fn deserialize(data: &[u8]) -> (r: Result<SolanaAccountQueryRequest, DecodeError>)
        ensures
            match r {
                Ok(v) => parse_solana_account_request(data@, 0) matches Ok(p) && p.0
                    == v.deep_view(),
                Err(e) => parse_solana_account_request(data@, 0) matches Err(pe) && pe == e,
            },
    {
        let mut rdr = Reader::new(data);
        Self::deserialize_from_reader(&mut rdr)
    }

    /// Decode a `SolanaAccount` query body, advancing the shared cursor.
    pub fn deserialize_from_reader(rdr: &mut Reader) -> (r: Result<
        SolanaAccountQueryRequest,
        DecodeError,
    >)
        requires
            old(rdr).wf(),
        ensures
            final(rdr).wf(),
            final(rdr).bytes() == old(rdr).bytes(),
            match r {
                Ok(v) => parse_solana_account_request(old(rdr).bytes(), old(rdr).pos()) == Ok::<
                    (SolanaAccountQueryRequestView, int),
                    DecodeError,
                >((v.deep_view(), final(rdr).pos())),
                Err(e) => parse_solana_account_request(old(rdr).bytes(), old(rdr).pos()) == Err::<
                    (SolanaAccountQueryRequestView, int),
                    DecodeError,
                >(e),
            },
    {
        let commitment = match rdr.read_string() {
            Ok(s) => s,
            Err(e) => {
                return Err(e);
            },
        };
        let min_context_slot = match rdr.read_u64_be() {
            Ok(x) => x,
            Err(e) => {
                return Err(e);
            },
        };
        let data_slice_offset = match rdr.read_u64_be() {
            Ok(x) => x,
            Err(e) => {
                return Err(e);
            },
        };
        let data_slice_length = match rdr.read_u64_be() {
            Ok(x) => x,
            Err(e) => {
                return Err(e);
            },
        };
        let accounts = match read_accounts_section(rdr) {
            Ok(v) => v,
            Err(e) => {
                return Err(e);
            },
        };
        Ok(
            SolanaAccountQueryRequest {
                commitment,
                min_context_slot,
                data_slice_offset,
                data_slice_length,
                accounts,
            },
        )
    }
}

impl PerChainQueryRequest {
    /// Decode one per-chain query from the front of `data`.
    pub fn deserialize(data: &[u8]) -> (r: Result<PerChainQueryRequest, DecodeError>)
        ensures
            match r {
                Ok(v) => parse_per_chain_query_request(data@, 0) matches Ok(p) && p.0
                    == v.deep_view(),
                Err(e) => parse_per_chain_query_request(data@, 0) matches Err(pe) && pe == e,
            },
    {
        let mut rdr = Reader::new(data);
        Self::deserialize_from_reader(&mut rdr)
    }

    /// Decode one per-chain query, advancing the shared cursor: chain id,
    /// tag byte, a discarded four-byte payload length, then the variant
    /// selected by the tag.
    pub fn deserialize_from_reader(rdr: &mut Reader) -> (r: Result<
        PerChainQueryRequest,
        DecodeError,
    >)
        requires
            old(rdr).wf(),
        ensures
            final(rdr).wf(),
            final(rdr).bytes() == old(rdr).bytes(),
            match r {
                Ok(v) => parse_per_chain_query_request(old(rdr).bytes(), old(rdr).pos()) == Ok::<
                    (PerChainQueryRequestView, int),
                    DecodeError,
                >((v.deep_view(), final(rdr).pos())),
                Err(e) => parse_per_chain_query_request(old(rdr).bytes(), old(rdr).pos()) == Err::<
                    (PerChainQueryRequestView, int),
                    DecodeError,
                >(e),
            },
    {
        let chain_id = match rdr.read_u16_be() {
            Ok(x) => x,
            Err(e) => {
                return Err(e);
            },
        };
        let query_type = match rdr.read_u8() {
            Ok(x) => x,
            Err(e) => {
                return Err(e);
            },
        };
        // The four-byte payload length is carried on the wire but not
        // load-bearing: it is read and discarded, and bounds safety comes
        // from the cursor's own remaining-length tracking.
        match rdr.read_u32_be() {
            Ok(_) => (),
            Err(e) => {
                return Err(e);
            },
        };
        let query: ChainSpecificQuery;
        if query_type == 1 {
            query = match EthCallQueryRequest::deserialize_from_reader(rdr) {
                Ok(q) => ChainSpecificQuery::EthCallQueryRequest(q),
                Err(e) => {
                    return Err(e);
                },
            };
        } else if query_type == 2 {
            query = match EthCallByTimestampQueryRequest::deserialize_from_reader(rdr) {
                Ok(q) => ChainSpecificQuery::EthCallByTimestampQueryRequest(q),
                Err(e) => {
                    return Err(e);
                },
            };
        } else if query_type == 3 {
            query = match EthCallWithFinalityQueryRequest::deserialize_from_reader(rdr) {
                Ok(q) => ChainSpecificQuery::EthCallWithFinalityQueryRequest(q),
                Err(e) => {
                    return Err(e);
                },
            };
        } else if query_type == 4 {
            query = match SolanaAccountQueryRequest::deserialize_from_reader(rdr) {
                Ok(q) => ChainSpecificQuery::SolanaAccountQueryRequest(q),
                Err(e) => {
                    return Err(e);
                },
            };
        } else {
            return Err(DecodeError::UnsupportedQueryType);
        }
        Ok(PerChainQueryRequest { chain_id, query })
    }
}

impl QueryRequest {
    /// Decode a whole request message from the front of `data`. The result
    /// is exactly what the specification parser says the bytes mean: the
    /// decode succeeds if and only if the specification parser accepts the
    /// buffer, with structurally equal fields, and otherwise fails with
    /// the very error the specification parser names.
    pub fn deserialize(data: &[u8]) -> (r: Result<QueryRequest, DecodeError>)
        ensures
            match r {
                Ok(v) => spec_decode_query_request(data@) == Ok::<QueryRequestView, DecodeError>(
                    v.deep_view(),
                ),
                Err(e) => spec_decode_query_request(data@) == Err::<QueryRequestView, DecodeError>(
                    e,
                ),
            },
    {
        let mut rdr = Reader::new(data);
        Self::deserialize_from_reader(&mut rdr)
    }

    /// Decode a whole request message, advancing the shared cursor.
    #[verifier::loop_isolation(false)]
    #[verifier::rlimit(40)]
    pub fn deserialize_from_reader(rdr: &mut Reader) -> (r: Result<QueryRequest, DecodeError>)
        requires
            old(rdr).wf(),
        ensures
            final(rdr).wf(),
            final(rdr).bytes() == old(rdr).bytes(),
            match r {
                Ok(v) => parse_query_request(old(rdr).bytes(), old(rdr).pos()) == Ok::<
                    (QueryRequestView, int),
                    DecodeError,
                >((v.deep_view(), final(rdr).pos())),
                Err(e) => parse_query_request(old(rdr).bytes(), old(rdr).pos()) == Err::<
                    (QueryRequestView, int),
                    DecodeError,
                >(e),
            },
    {
        let version = match rdr.read_u8() {
            Ok(x) => x,
            Err(e) => {
                return Err(e);
            },
        };
        if version != REQUEST_VERSION {
            return Err(DecodeError::VersionMismatch);
        }
        let nonce = match rdr.read_u32_be() {
            Ok(x) => x,
            Err(e) => {
                return Err(e);
            },
        };
        let num_per_chain_queries = match rdr.read_u8() {
            Ok(x) => x,
            Err(e) => {
                return Err(e);
            },
        };
        // A valid query request has at least one per-chain query.
        if num_per_chain_queries == 0 {
            return Err(DecodeError::ZeroQueries);
        }
        let ghost s = rdr.bytes();
        let ghost j0 = rdr.pos();
        let mut requests: Vec<PerChainQueryRequest> = Vec::new();
        let mut idx: u8 = 0;
        while idx < num_per_chain_queries
            invariant
                rdr.wf(),
                rdr.bytes() == s,
                idx <= num_per_chain_queries,
                requests.deep_view().len() == idx as int,
                match parse_per_chain_query_request_list(
                    s,
                    rdr.pos(),
                    (num_per_chain_queries - idx) as nat,
                ) {
                    Ok((ds, k)) => parse_per_chain_query_request_list(
                        s,
                        j0,
                        num_per_chain_queries as nat,
                    ) == Ok::<(Seq<PerChainQueryRequestView>, int), DecodeError>(
                        (requests.deep_view() + ds, k),
                    ),
                    Err(e) => parse_per_chain_query_request_list(
                        s,
                        j0,
                        num_per_chain_queries as nat,
                    ) == Err::<(Seq<PerChainQueryRequestView>, int), DecodeError>(e),
                },
            decreases num_per_chain_queries - idx,
        {
            let q = match PerChainQueryRequest::deserialize_from_reader(rdr) {
                Ok(q) => q,
                Err(e) => {
                    return Err(e);
                },
            };
            let ghost prev = requests.deep_view();
            let ghost qv = q.deep_view();
            proof {
                match parse_per_chain_query_request_list(
                    s,
                    rdr.pos(),
                    (num_per_chain_queries - idx - 1) as nat,
                ) {
                    Ok((ds, k)) => {
                        assert(prev + (seq![qv] + ds) =~= (prev + seq![qv]) + ds);
                    },
                    Err(_) => {},
                }
            }
            requests.push(q);
            idx = idx + 1;
            proof {
                assert(requests.deep_view() =~= prev + seq![qv]);
            }
        }
        proof {
            assert(requests.deep_view() + Seq::<PerChainQueryRequestView>::empty()
                =~= requests.deep_view());
        }
        Ok(QueryRequest { version, nonce, requests })
    }
}

} // verus!
