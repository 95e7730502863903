//! The response side of the wire format: a `QueryResponse` carries a
//! version byte, the requesting chain id, a provenance identifier whose
//! size depends on that id, the original request embedded verbatim, and a
//! list of per-chain responses mirroring the per-chain queries.
//!
//! Unlike the request side, a response buffer must be consumed exactly:
//! after the last field the cursor has to sit at the end of the input, and
//! any leftover byte fails the decode.

use vstd::prelude::*;

use crate::error::DecodeError;
use crate::query_request::QueryRequest;
use crate::query_request::QueryRequestView;
use crate::query_request::parse_query_request;
use crate::reader::Reader;
use crate::reader::parse_fixed_bytes;
use crate::reader::parse_len_prefixed_bytes;
use crate::reader::parse_u16_be;
use crate::reader::parse_u32_be;
use crate::reader::parse_u64_be;
use crate::reader::parse_u8;

verus! {

/// The only supported response version byte.
pub const RESPONSE_VERSION: u8 = 1;

// ---------------------------------------------------------------------------
// Mathematical views of the decoded values
// ---------------------------------------------------------------------------
/// The answer to an `EthCall` query: the block it was evaluated against
/// and one opaque return blob per call.
#[verifier::ext_equal]
pub ghost struct EthCallQueryResponseView {
    pub block_number: u64,
    pub block_hash: Seq<u8>,
    pub block_time: u64,
    pub results: Seq<Seq<u8>>,
}

/// The answer to an `EthCallByTimestamp` query: two full block
/// descriptors bracketing the target timestamp, then the results.
#[verifier::ext_equal]
pub ghost struct EthCallByTimestampQueryResponseView {
    pub target_block_number: u64,
    pub target_block_hash: Seq<u8>,
    pub target_block_time: u64,
    pub following_block_number: u64,
    pub following_block_hash: Seq<u8>,
    pub following_block_time: u64,
    pub results: Seq<Seq<u8>>,
}

/// The answer to an `EthCallWithFinality` query. Its wire layout is
/// identical to `EthCallQueryResponseView`; the finality guarantee is a
/// property of how the response was produced, not an extra wire field.
#[verifier::ext_equal]
pub ghost struct EthCallWithFinalityQueryResponseView {
    pub block_number: u64,
    pub block_hash: Seq<u8>,
    pub block_time: u64,
    pub results: Seq<Seq<u8>>,
}

/// One account snapshot inside a `SolanaAccount` response.
#[verifier::ext_equal]
pub ghost struct SolanaAccountResultView {
    pub lamports: u64,
    pub rent_epoch: u64,
    pub executable: bool,
    pub owner: Seq<u8>,
    pub data: Seq<u8>,
}

/// The answer to a `SolanaAccount` query.
#[verifier::ext_equal]
pub ghost struct SolanaAccountQueryResponseView {
    pub slot_number: u64,
    pub block_time: u64,
    pub block_hash: Seq<u8>,
    pub results: Seq<SolanaAccountResultView>,
}

/// The closed set of chain-specific response variants, selected by the
/// same tag scheme as the request side.
#[verifier::ext_equal]
pub ghost enum ChainSpecificResponseView {
    EthCallQueryResponse(EthCallQueryResponseView),
    EthCallByTimestampQueryResponse(EthCallByTimestampQueryResponseView),
    EthCallWithFinalityQueryResponse(EthCallWithFinalityQueryResponseView),
    SolanaAccountQueryResponse(SolanaAccountQueryResponseView),
}

/// One chain-scoped answer within a batched response.
#[verifier::ext_equal]
pub ghost struct PerChainQueryResponseView {
    pub chain_id: u16,
    pub response: ChainSpecificResponseView,
}

/// A whole decoded response message.
#[verifier::ext_equal]
pub ghost struct QueryResponseView {
    pub version: u8,
    pub request_chain_id: u16,
    pub request_id: Seq<u8>,
    pub request: QueryRequestView,
    pub responses: Seq<PerChainQueryResponseView>,
}

// ---------------------------------------------------------------------------
// Specification-level parsers
// ---------------------------------------------------------------------------
/// Parse `n` consecutive length-prefixed result blobs.
pub open spec fn parse_result_list(s: Seq<u8>, i: int, n: nat) -> Result<
    (Seq<Seq<u8>>, int),
    DecodeError,
>
    decreases n,
{
    if n == 0 {
        if 0 <= i <= s.len() {
            Ok((Seq::empty(), i))
        } else {
            Err(DecodeError::TruncatedInput)
        }
    } else {
        match parse_len_prefixed_bytes(s, i) {
            Ok((b, j)) => match parse_result_list(s, j, (n - 1) as nat) {
                Ok((rest, k)) => Ok((seq![b] + rest, k)),
                Err(e) => Err(e),
            },
            Err(e) => Err(e),
        }
    }
}

/// Parse a one-byte count followed by that many length-prefixed blobs.
pub open spec fn parse_results_section(s: Seq<u8>, i: int) -> Result<
    (Seq<Seq<u8>>, int),
    DecodeError,
> {
    match parse_u8(s, i) {
        Ok((count, j)) => parse_result_list(s, j, count as nat),
        Err(e) => Err(e),
    }
}

/// Parse the body of an `EthCall` response: block number, 32-byte block
/// hash, block time, then the results.
pub open spec fn parse_eth_call_response(s: Seq<u8>, i: int) -> Result<
    (EthCallQueryResponseView, int),
    DecodeError,
> {
    match parse_u64_be(s, i) {
        Ok((block_number, j)) => match parse_fixed_bytes(s, j, 32) {
            Ok((block_hash, k)) => match parse_u64_be(s, k) {
                Ok((block_time, m)) => match parse_results_section(s, m) {
                    Ok((results, n)) => Ok(
                        (
                            EthCallQueryResponseView {
                                block_number,
                                block_hash,
                                block_time,
                                results,
                            },
                            n,
                        ),
                    ),
                    Err(e) => Err(e),
                },
                Err(e) => Err(e),
            },
            Err(e) => Err(e),
        },
        Err(e) => Err(e),
    }
}

/// Parse the body of an `EthCallByTimestamp` response: a target block
/// descriptor, a following block descriptor, then the results.
pub open spec fn parse_eth_call_by_timestamp_response(s: Seq<u8>, i: int) -> Result<
    (EthCallByTimestampQueryResponseView, int),
    DecodeError,
> {
    match parse_u64_be(s, i) {
        Ok((target_block_number, j1)) => match parse_fixed_bytes(s, j1, 32) {
            Ok((target_block_hash, j2)) => match parse_u64_be(s, j2) {
                Ok((target_block_time, j3)) => match parse_u64_be(s, j3) {
                    Ok((following_block_number, j4)) => match parse_fixed_bytes(s, j4, 32) {
                        Ok((following_block_hash, j5)) => match parse_u64_be(s, j5) {
                            Ok((following_block_time, j6)) => match parse_results_section(s, j6) {
                                Ok((results, n)) => Ok(
                                    (
                                        EthCallByTimestampQueryResponseView {
                                            target_block_number,
                                            target_block_hash,
                                            target_block_time,
                                            following_block_number,
                                            following_block_hash,
                                            following_block_time,
                                            results,
                                        },
                                        n,
                                    ),
                                ),
                                Err(e) => Err(e),
                            },
                            Err(e) => Err(e),
                        },
                        Err(e) => Err(e),
                    },
                    Err(e) => Err(e),
                },
                Err(e) => Err(e),
            },
            Err(e) => Err(e),
        },
        Err(e) => Err(e),
    }
}

/// Parse the body of an `EthCallWithFinality` response: the very same
/// layout as an `EthCall` response, relabeled.
pub open spec fn parse_eth_call_with_finality_response(s: Seq<u8>, i: int) -> Result<
    (EthCallWithFinalityQueryResponseView, int),
    DecodeError,
> {
    match parse_eth_call_response(s, i) {
        Ok((v, j)) => Ok(
            (
                EthCallWithFinalityQueryResponseView {
                    block_number: v.block_number,
                    block_hash: v.block_hash,
                    block_time: v.block_time,
                    results: v.results,
                },
                j,
            ),
        ),
        Err(e) => Err(e),
    }
}

/// Parse one account snapshot: lamports, rent epoch, a one-byte
/// executable flag that is false only for byte value zero, a 32-byte
/// owner key, then length-prefixed account data.
pub open spec fn parse_solana_account_result(s: Seq<u8>, i: int) -> Result<
    (SolanaAccountResultView, int),
    DecodeError,
> {
    match parse_u64_be(s, i) {
        Ok((lamports, j)) => match parse_u64_be(s, j) {
            Ok((rent_epoch, k)) => match parse_u8(s, k) {
                Ok((executable_byte, m)) => match parse_fixed_bytes(s, m, 32) {
                    Ok((owner, n)) => match parse_len_prefixed_bytes(s, n) {
                        Ok((data, p)) => Ok(
                            (
                                SolanaAccountResultView {
                                    lamports,
                                    rent_epoch,
                                    executable: executable_byte != 0,
                                    owner,
                                    data,
                                },
                                p,
                            ),
                        ),
                        Err(e) => Err(e),
                    },
                    Err(e) => Err(e),
                },
                Err(e) => Err(e),
            },
            Err(e) => Err(e),
        },
        Err(e) => Err(e),
    }
}

/// Parse `n` consecutive account snapshots.
pub open spec fn parse_solana_result_list(s: Seq<u8>, i: int, n: nat) -> Result<
    (Seq<SolanaAccountResultView>, int),
    DecodeError,
>
    decreases n,
{
    if n == 0 {
        if 0 <= i <= s.len() {
            Ok((Seq::empty(), i))
        } else {
            Err(DecodeError::TruncatedInput)
        }
    } else {
        match parse_solana_account_result(s, i) {
            Ok((d, j)) => match parse_solana_result_list(s, j, (n - 1) as nat) {
                Ok((ds, k)) => Ok((seq![d] + ds, k)),
                Err(e) => Err(e),
            },
            Err(e) => Err(e),
        }
    }
}

/// Parse the body of a `SolanaAccount` response: slot number, block time,
/// 32-byte block hash, then a one-byte count of account snapshots.
pub open spec fn parse_solana_account_response(s: Seq<u8>, i: int) -> Result<
    (SolanaAccountQueryResponseView, int),
    DecodeError,
> {
    match parse_u64_be(s, i) {
        Ok((slot_number, j)) => match parse_u64_be(s, j) {
            Ok((block_time, k)) => match parse_fixed_bytes(s, k, 32) {
                Ok((block_hash, m)) => match parse_u8(s, m) {
                    Ok((count, n)) => match parse_solana_result_list(s, n, count as nat) {
                        Ok((results, p)) => Ok(
                            (
                                SolanaAccountQueryResponseView {
                                    slot_number,
                                    block_time,
                                    block_hash,
                                    results,
                                },
                                p,
                            ),
                        ),
                        Err(e) => Err(e),
                    },
                    Err(e) => Err(e),
                },
                Err(e) => Err(e),
            },
            Err(e) => Err(e),
        },
        Err(e) => Err(e),
    }
}

/// Dispatch on the one-byte response tag. Only tags 1 through 4 are
/// valid; every other tag fails the whole decode.
pub open spec fn parse_chain_specific_response(s: Seq<u8>, i: int, tag: u8) -> Result<
    (ChainSpecificResponseView, int),
    DecodeError,
> {
    if tag == 1 {
        match parse_eth_call_response(s, i) {
            Ok((v, j)) => Ok((ChainSpecificResponseView::EthCallQueryResponse(v), j)),
            Err(e) => Err(e),
        }
    } else if tag == 2 {
        match parse_eth_call_by_timestamp_response(s, i) {
            Ok((v, j)) => Ok((ChainSpecificResponseView::EthCallByTimestampQueryResponse(v), j)),
            Err(e) => Err(e),
        }
    } else if tag == 3 {
        match parse_eth_call_with_finality_response(s, i) {
            Ok((v, j)) => Ok((ChainSpecificResponseView::EthCallWithFinalityQueryResponse(v), j)),
            Err(e) => Err(e),
        }
    } else if tag == 4 {
        match parse_solana_account_response(s, i) {
            Ok((v, j)) => Ok((ChainSpecificResponseView::SolanaAccountQueryResponse(v), j)),
            Err(e) => Err(e),
        }
    } else {
        Err(DecodeError::UnsupportedResponseType)
    }
}

/// Parse one per-chain response: chain id, tag byte, a four-byte payload
/// length that is read and discarded, then the tagged variant body.
pub open spec fn parse_per_chain_query_response(s: Seq<u8>, i: int) -> Result<
    (PerChainQueryResponseView, int),
    DecodeError,
> {
    match parse_u16_be(s, i) {
        Ok((chain_id, j)) => match parse_u8(s, j) {
            Ok((tag, k)) => match parse_u32_be(s, k) {
                Ok((_len, m)) => match parse_chain_specific_response(s, m, tag) {
                    Ok((response, n)) => Ok((PerChainQueryResponseView { chain_id, response }, n)),
                    Err(e) => Err(e),
                },
                Err(e) => Err(e),
            },
            Err(e) => Err(e),
        },
        Err(e) => Err(e),
    }
}

/// Parse `n` consecutive per-chain responses.
pub open spec fn parse_per_chain_query_response_list(s: Seq<u8>, i: int, n: nat) -> Result<
    (Seq<PerChainQueryResponseView>, int),
    DecodeError,
>
    decreases n,
{
    if n == 0 {
        if 0 <= i <= s.len() {
            Ok((Seq::empty(), i))
        } else {
            Err(DecodeError::TruncatedInput)
        }
    } else {
        match parse_per_chain_query_response(s, i) {
            Ok((q, j)) => match parse_per_chain_query_response_list(s, j, (n - 1) as nat) {
                Ok((qs, k)) => Ok((seq![q] + qs, k)),
                Err(e) => Err(e),
            },
            Err(e) => Err(e),
        }
    }
}

/// The size of the provenance identifier: a 65-byte signature for
/// off-chain requests (chain id zero), a 32-byte hash otherwise.
pub open spec fn request_id_len(request_chain_id: u16) -> int {
    if request_chain_id == 0 {
        65
    } else {
        32
    }
}

/// Parse the fields of a response message starting at position `i`:
/// version byte (must be the supported version), requesting chain id, the
/// provenance identifier whose size `request_id_len` gives, a discarded
/// four-byte length, the embedded original request, then a one-byte count
/// of per-chain responses, which may legitimately be zero.
pub open spec fn parse_query_response(s: Seq<u8>, i: int) -> Result<
    (QueryResponseView, int),
    DecodeError,
> {
    match parse_u8(s, i) {
        Ok((version, j1)) => {
            if version != RESPONSE_VERSION {
                Err(DecodeError::InvalidResponseVersion)
            } else {
                match parse_u16_be(s, j1) {
                    Ok((request_chain_id, j2)) => match parse_fixed_bytes(
                        s,
                        j2,
                        request_id_len(request_chain_id),
                    ) {
                        Ok((request_id, j3)) => match parse_u32_be(s, j3) {
                            Ok((_len, j4)) => match parse_query_request(s, j4) {
                                Ok((request, j5)) => match parse_u8(s, j5) {
                                    Ok((count, j6)) => match parse_per_chain_query_response_list(
                                        s,
                                        j6,
                                        count as nat,
                                    ) {
                                        Ok((responses, n)) => Ok(
                                            (
                                                QueryResponseView {
                                                    version,
                                                    request_chain_id,
                                                    request_id,
                                                    request,
                                                    responses,
                                                },
                                                n,
                                            ),
                                        ),
                                        Err(e) => Err(e),
                                    },
                                    Err(e) => Err(e),
                                },
                                Err(e) => Err(e),
                            },
                            Err(e) => Err(e),
                        },
                        Err(e) => Err(e),
                    },
                    Err(e) => Err(e),
                }
            }
        },
        Err(e) => Err(e),
    }
}

/// Parse a response and then demand exact consumption: the fields must
/// end precisely at the end of the buffer, and any leftover byte is a
/// format violation.
pub open spec fn parse_query_response_exact(s: Seq<u8>, i: int) -> Result<
    (QueryResponseView, int),
    DecodeError,
> {
    match parse_query_response(s, i) {
        Ok((v, n)) => {
            if n == s.len() {
                Ok((v, n))
            } else {
                Err(DecodeError::InvalidPayloadLength)
            }
        },
        Err(e) => Err(e),
    }
}

/// What decoding a whole response buffer yields, exact consumption
/// included.
pub open spec fn spec_decode_query_response(s: Seq<u8>) -> Result<QueryResponseView, DecodeError> {
    match parse_query_response_exact(s, 0) {
        Ok((v, _n)) => Ok(v),
        Err(e) => Err(e),
    }
}

// ---------------------------------------------------------------------------
// Decoded values and their verified decoders
// ---------------------------------------------------------------------------
/// A whole decoded response message.
#[derive(Debug)]
pub struct QueryResponse {
    pub version: u8,
    pub request_chain_id: u16,
    pub request_id: Vec<u8>,
    pub request: QueryRequest,
    pub responses: Vec<PerChainQueryResponse>,
}

/// One chain-scoped answer within a batched response.
#[derive(Debug)]
pub struct PerChainQueryResponse {
    pub chain_id: u16,
    pub response: ChainSpecificResponse,
}

/// The closed set of chain-specific response variants.
#[derive(Debug)]
pub enum ChainSpecificResponse {
    EthCallQueryResponse(EthCallQueryResponse),
    EthCallByTimestampQueryResponse(EthCallByTimestampQueryResponse),
    EthCallWithFinalityQueryResponse(EthCallWithFinalityQueryResponse),
    SolanaAccountQueryResponse(SolanaAccountQueryResponse),
}

/// The answer to an `EthCall` query.
#[derive(Debug)]
pub struct EthCallQueryResponse {
    pub block_number: u64,
    pub block_hash: [u8; 32],
    pub block_time: u64,
    pub results: Vec<Vec<u8>>,
}

/// The answer to an `EthCallByTimestamp` query.
#[derive(Debug)]
pub struct EthCallByTimestampQueryResponse {
    pub target_block_number: u64,
    pub target_block_hash: [u8; 32],
    pub target_block_time: u64,
    pub following_block_number: u64,
    pub following_block_hash: [u8; 32],
    pub following_block_time: u64,
    pub results: Vec<Vec<u8>>,
}

/// The answer to an `EthCallWithFinality` query.
#[derive(Debug)]
pub struct EthCallWithFinalityQueryResponse {
    pub block_number: u64,
    pub block_hash: [u8; 32],
    pub block_time: u64,
    pub results: Vec<Vec<u8>>,
}

/// The answer to a `SolanaAccount` query.
#[derive(Debug)]
pub struct SolanaAccountQueryResponse {
    pub slot_number: u64,
    pub block_time: u64,
    pub block_hash: [u8; 32],
    pub results: Vec<SolanaAccountResult>,
}

/// One account snapshot inside a `SolanaAccount` response.
#[derive(Debug)]
pub struct SolanaAccountResult {
    pub lamports: u64,
    pub rent_epoch: u64,
    pub executable: bool,
    pub owner: [u8; 32],
    pub data: Vec<u8>,
}

impl DeepView for EthCallQueryResponse {
    type V = EthCallQueryResponseView;

    open spec fn deep_view(&self) -> EthCallQueryResponseView {
        EthCallQueryResponseView {
            block_number: self.block_number,
            block_hash: self.block_hash@,
            block_time: self.block_time,
            results: self.results.deep_view(),
        }
    }
}

impl DeepView for EthCallByTimestampQueryResponse {
    type V = EthCallByTimestampQueryResponseView;

    open spec fn deep_view(&self) -> EthCallByTimestampQueryResponseView {
        EthCallByTimestampQueryResponseView {
            target_block_number: self.target_block_number,
            target_block_hash: self.target_block_hash@,
            target_block_time: self.target_block_time,
            following_block_number: self.following_block_number,
            following_block_hash: self.following_block_hash@,
            following_block_time: self.following_block_time,
            results: self.results.deep_view(),
        }
    }
}

impl DeepView for EthCallWithFinalityQueryResponse {
    type V = EthCallWithFinalityQueryResponseView;

    open spec fn deep_view(&self) -> EthCallWithFinalityQueryResponseView {
        EthCallWithFinalityQueryResponseView {
            block_number: self.block_number,
            block_hash: self.block_hash@,
            block_time: self.block_time,
            results: self.results.deep_view(),
        }
    }
}

impl DeepView for SolanaAccountResult {
    type V = SolanaAccountResultView;

    open spec fn deep_view(&self) -> SolanaAccountResultView {
        SolanaAccountResultView {
            lamports: self.lamports,
            rent_epoch: self.rent_epoch,
            executable: self.executable,
            owner: self.owner@,
            data: self.data@,
        }
    }
}

impl DeepView for SolanaAccountQueryResponse {
    type V = SolanaAccountQueryResponseView;

    open spec fn deep_view(&self) -> SolanaAccountQueryResponseView {
        SolanaAccountQueryResponseView {
            slot_number: self.slot_number,
            block_time: self.block_time,
            block_hash: self.block_hash@,
            results: self.results.deep_view(),
        }
    }
}

impl DeepView for ChainSpecificResponse {
    type V = ChainSpecificResponseView;

    open spec fn deep_view(&self) -> ChainSpecificResponseView {
        match self {
            ChainSpecificResponse::EthCallQueryResponse(
                v,
            ) => ChainSpecificResponseView::EthCallQueryResponse(v.deep_view()),
            ChainSpecificResponse::EthCallByTimestampQueryResponse(
                v,
            ) => ChainSpecificResponseView::EthCallByTimestampQueryResponse(v.deep_view()),
            ChainSpecificResponse::EthCallWithFinalityQueryResponse(
                v,
            ) => ChainSpecificResponseView::EthCallWithFinalityQueryResponse(v.deep_view()),
            ChainSpecificResponse::SolanaAccountQueryResponse(
                v,
            ) => ChainSpecificResponseView::SolanaAccountQueryResponse(v.deep_view()),
        }
    }
}

impl DeepView for PerChainQueryResponse {
    type V = PerChainQueryResponseView;

    open spec fn deep_view(&self) -> PerChainQueryResponseView {
        PerChainQueryResponseView { chain_id: self.chain_id, response: self.response.deep_view() }
    }
}

impl DeepView for QueryResponse {
    type V = QueryResponseView;

    open spec fn deep_view(&self) -> QueryResponseView {
        QueryResponseView {
            version: self.version,
            request_chain_id: self.request_chain_id,
            request_id: self.request_id@,
            request: self.request.deep_view(),
            responses: self.responses.deep_view(),
        }
    }
}

/// Read a one-byte count followed by that many length-prefixed blobs.
#[verifier::loop_isolation(false)]
fn read_results_section(rdr: &mut Reader) -> (r: Result<Vec<Vec<u8>>, DecodeError>)
    requires
        old(rdr).wf(),
    ensures
        final(rdr).wf(),
        final(rdr).bytes() == old(rdr).bytes(),
        match r {
            Ok(v) => parse_results_section(old(rdr).bytes(), old(rdr).pos()) == Ok::<
                (Seq<Seq<u8>>, int),
                DecodeError,
            >((v.deep_view(), final(rdr).pos())),
            Err(e) => parse_results_section(old(rdr).bytes(), old(rdr).pos()) == Err::<
                (Seq<Seq<u8>>, int),
                DecodeError,
            >(e),
        },
{
    let count = match rdr.read_u8() {
        Ok(c) => c,
        Err(e) => {
            return Err(e);
        },
    };
    let ghost s = rdr.bytes();
    let ghost j0 = rdr.pos();
    let mut out: Vec<Vec<u8>> = Vec::new();
    let mut idx: u8 = 0;
    while idx < count
        invariant
            rdr.wf(),
            rdr.bytes() == s,
            idx <= count,
            out.deep_view().len() == idx as int,
            match parse_result_list(s, rdr.pos(), (count - idx) as nat) {
                Ok((ds, k)) => parse_result_list(s, j0, count as nat) == Ok::<
                    (Seq<Seq<u8>>, int),
                    DecodeError,
                >((out.deep_view() + ds, k)),
                Err(e) => parse_result_list(s, j0, count as nat) == Err::<
                    (Seq<Seq<u8>>, int),
                    DecodeError,
                >(e),
            },
        decreases count - idx,
    {
        let b = match rdr.read_len_prefixed_bytes() {
            Ok(b) => b,
            Err(e) => {
                return Err(e);
            },
        };
        let ghost prev = out.deep_view();
        let ghost bv = b.deep_view();
        proof {
            assert(bv =~= b@);
            match parse_result_list(s, rdr.pos(), (count - idx - 1) as nat) {
                Ok((ds, k)) => {
                    assert(prev + (seq![bv] + ds) =~= (prev + seq![bv]) + ds);
                },
                Err(_) => {},
            }
        }
        out.push(b);
        idx = idx + 1;
        proof {
            assert(out.deep_view() =~= prev + seq![bv]);
        }
    }
    proof {
        assert(out.deep_view() + Seq::<Seq<u8>>::empty() =~= out.deep_view());
    }
    Ok(out)
}

impl EthCallQueryResponse {
    /// Decode an `EthCall` response body from the front of `data`.
    pub fn deserialize(data: &[u8]) -> (r: Result<EthCallQueryResponse, DecodeError>)
        ensures
            match r {
                Ok(v) => parse_eth_call_response(data@, 0) matches Ok(p) && p.0 == v.deep_view(),
                Err(e) => parse_eth_call_response(data@, 0) matches Err(pe) && pe == e,
            },
    {
        let mut rdr = Reader::new(data);
        Self::deserialize_from_reader(&mut rdr)
    }

    /// Decode an `EthCall` response body, advancing the shared cursor.
    pub fn deserialize_from_reader(rdr: &mut Reader) -> (r: Result<
        EthCallQueryResponse,
        DecodeError,
    >)
        requires
            old(rdr).wf(),
        ensures
            final(rdr).wf(),
            final(rdr).bytes() == old(rdr).bytes(),
            match r {
                Ok(v) => parse_eth_call_response(old(rdr).bytes(), old(rdr).pos()) == Ok::<
                    (EthCallQueryResponseView, int),
                    DecodeError,
                >((v.deep_view(), final(rdr).pos())),
                Err(e) => parse_eth_call_response(old(rdr).bytes(), old(rdr).pos()) == Err::<
                    (EthCallQueryResponseView, int),
                    DecodeError,
                >(e),
            },
    {
        let block_number = match rdr.read_u64_be() {
            Ok(x) => x,
            Err(e) => {
                return Err(e);
            },
        };
        let block_hash = match rdr.read_array::<32>() {
            Ok(a) => a,
            Err(e) => {
                return Err(e);
            },
        };
        let block_time = match rdr.read_u64_be() {
            Ok(x) => x,
            Err(e) => {
                return Err(e);
            },
        };
        let results = match read_results_section(rdr) {
            Ok(v) => v,
            Err(e) => {
                return Err(e);
            },
        };
        Ok(EthCallQueryResponse { block_number, block_hash, block_time, results })
    }
}

impl EthCallByTimestampQueryResponse {
    /// Decode an `EthCallByTimestamp` response body from the front of
    /// `data`.
    pub fn deserialize(data: &[u8]) -> (r: Result<EthCallByTimestampQueryResponse, DecodeError>)
        ensures
            match r {
                Ok(v) => parse_eth_call_by_timestamp_response(data@, 0) matches Ok(p) && p.0
                    == v.deep_view(),
                Err(e) => parse_eth_call_by_timestamp_response(data@, 0) matches Err(pe) && pe == e,
            },
    {
        let mut rdr = Reader::new(data);
        Self::deserialize_from_reader(&mut rdr)
    }

    /// Decode an `EthCallByTimestamp` response body, advancing the shared
    /// cursor.
    pub fn deserialize_from_reader(rdr: &mut Reader) -> (r: Result<
        EthCallByTimestampQueryResponse,
        DecodeError,
    >)
        requires
            old(rdr).wf(),
        ensures
            final(rdr).wf(),
            final(rdr).bytes() == old(rdr).bytes(),
            match r {
                Ok(v) => parse_eth_call_by_timestamp_response(old(rdr).bytes(), old(rdr).pos())
                    == Ok::<(EthCallByTimestampQueryResponseView, int), DecodeError>(
                    (v.deep_view(), final(rdr).pos()),
                ),
                Err(e) => parse_eth_call_by_timestamp_response(old(rdr).bytes(), old(rdr).pos())
                    == Err::<(EthCallByTimestampQueryResponseView, int), DecodeError>(e),
            },
    {
        let target_block_number = match rdr.read_u64_be() {
            Ok(x) => x,
            Err(e) => {
                return Err(e);
            },
        };
        let target_block_hash = match rdr.read_array::<32>() {
            Ok(a) => a,
            Err(e) => {
                return Err(e);
            },
        };
        let target_block_time = match rdr.read_u64_be() {
            Ok(x) => x,
            Err(e) => {
                return Err(e);
            },
        };
        let following_block_number = match rdr.read_u64_be() {
            Ok(x) => x,
            Err(e) => {
                return Err(e);
            },
        };
        let following_block_hash = match rdr.read_array::<32>() {
            Ok(a) => a,
            Err(e) => {
                return Err(e);
            },
        };
        let following_block_time = match rdr.read_u64_be() {
            Ok(x) => x,
            Err(e) => {
                return Err(e);
            },
        };
        let results = match read_results_section(rdr) {
            Ok(v) => v,
            Err(e) => {
                return Err(e);
            },
        };
        Ok(
            EthCallByTimestampQueryResponse {
                target_block_number,
                target_block_hash,
                target_block_time,
                following_block_number,
                following_block_hash,
                following_block_time,
                results,
            },
        )
    }
}

impl EthCallWithFinalityQueryResponse {
    /// Decode an `EthCallWithFinality` response body from the front of
    /// `data`.
    pub fn deserialize(data: &[u8]) -> (r: Result<EthCallWithFinalityQueryResponse, DecodeError>)
        ensures
            match r {
                Ok(v) => parse_eth_call_with_finality_response(data@, 0) matches Ok(p) && p.0
                    == v.deep_view(),
                Err(e) => parse_eth_call_with_finality_response(data@, 0) matches Err(pe) && pe
                    == e,
            },
    {
        let mut rdr = Reader::new(data);
        Self::deserialize_from_reader(&mut rdr)
    }

    /// Decode an `EthCallWithFinality` response body, advancing the shared
    /// cursor. The wire layout is that of an `EthCall` response, so this
    /// reuses that decoder and relabels the result.
    pub fn deserialize_from_reader(rdr: &mut Reader) -> (r: Result<
        EthCallWithFinalityQueryResponse,
        DecodeError,
    >)
        requires
            old(rdr).wf(),
        ensures
            final(rdr).wf(),
            final(rdr).bytes() == old(rdr).bytes(),
            match r {
                Ok(v) => parse_eth_call_with_finality_response(old(rdr).bytes(), old(rdr).pos())
                    == Ok::<(EthCallWithFinalityQueryResponseView, int), DecodeError>(
                    (v.deep_view(), final(rdr).pos()),
                ),
                Err(e) => parse_eth_call_with_finality_response(old(rdr).bytes(), old(rdr).pos())
                    == Err::<(EthCallWithFinalityQueryResponseView, int), DecodeError>(e),
            },
    {
        let EthCallQueryResponse { block_number, block_hash, block_time, results } = match
        EthCallQueryResponse::deserialize_from_reader(rdr) {
            Ok(v) => v,
            Err(e) => {
                return Err(e);
            },
        };
        Ok(EthCallWithFinalityQueryResponse { block_number, block_hash, block_time, results })
    }
}

/// Read one account snapshot.
fn read_solana_account_result(rdr: &mut Reader) -> (r: Result<SolanaAccountResult, DecodeError>)
    requires
        old(rdr).wf(),
    ensures
        final(rdr).wf(),
        final(rdr).bytes() == old(rdr).bytes(),
        match r {
            Ok(d) => parse_solana_account_result(old(rdr).bytes(), old(rdr).pos()) == Ok::<
                (SolanaAccountResultView, int),
                DecodeError,
            >((d.deep_view(), final(rdr).pos())),
            Err(e) => parse_solana_account_result(old(rdr).bytes(), old(rdr).pos()) == Err::<
                (SolanaAccountResultView, int),
                DecodeError,
            >(e),
        },
{
    let lamports = match rdr.read_u64_be() {
        Ok(x) => x,
        Err(e) => {
            return Err(e);
        },
    };
    let rent_epoch = match rdr.read_u64_be() {
        Ok(x) => x,
        Err(e) => {
            return Err(e);
        },
    };
    let executable_byte = match rdr.read_u8() {
        Ok(x) => x,
        Err(e) => {
            return Err(e);
        },
    };
    let executable = executable_byte != 0;
    let owner = match rdr.read_array::<32>() {
        Ok(a) => a,
        Err(e) => {
            return Err(e);
        },
    };
    let data = match rdr.read_len_prefixed_bytes() {
        Ok(v) => v,
        Err(e) => {
            return Err(e);
        },
    };
    Ok(SolanaAccountResult { lamports, rent_epoch, executable, owner, data })
}

impl SolanaAccountQueryResponse {
    /// Decode a `SolanaAccount` response body from the front of `data`.
    pub fn deserialize(data: &[u8]) -> (r: Result<SolanaAccountQueryResponse, DecodeError>)
        ensures
            match r {
                Ok(v) => parse_solana_account_response(data@, 0) matches Ok(p) && p.0
                    == v.deep_view(),
                Err(e) => parse_solana_account_response(data@, 0) matches Err(pe) && pe == e,
            },
    {
        let mut rdr = Reader::new(data);
        Self::deserialize_from_reader(&mut rdr)
    }

    /// Decode a `SolanaAccount` response body, advancing the shared
    /// cursor.
    #[verifier::loop_isolation(false)]
    pub fn deserialize_from_reader(rdr: &mut Reader) -> (r: Result<
        SolanaAccountQueryResponse,
        DecodeError,
    >)
        requires
            old(rdr).wf(),
        ensures
            final(rdr).wf(),
            final(rdr).bytes() == old(rdr).bytes(),
            match r {
                Ok(v) => parse_solana_account_response(old(rdr).bytes(), old(rdr).pos()) == Ok::<
                    (SolanaAccountQueryResponseView, int),
                    DecodeError,
                >((v.deep_view(), final(rdr).pos())),
                Err(e) => parse_solana_account_response(old(rdr).bytes(), old(rdr).pos()) == Err::<
                    (SolanaAccountQueryResponseView, int),
                    DecodeError,
                >(e),
            },
    {
        let slot_number = match rdr.read_u64_be() {
            Ok(x) => x,
            Err(e) => {
                return Err(e);
            },
        };
        let block_time = match rdr.read_u64_be() {
            Ok(x) => x,
            Err(e) => {
                return Err(e);
            },
        };
        let block_hash = match rdr.read_array::<32>() {
            Ok(a) => a,
            Err(e) => {
                return Err(e);
            },
        };
        let count = match rdr.read_u8() {
            Ok(c) => c,
            Err(e) => {
                return Err(e);
            },
        };
        let ghost s = rdr.bytes();
        let ghost j0 = rdr.pos();
        let mut results: Vec<SolanaAccountResult> = Vec::new();
        let mut idx: u8 = 0;
        while idx < count
            invariant
                rdr.wf(),
                rdr.bytes() == s,
                idx <= count,
                results.deep_view().len() == idx as int,
                match parse_solana_result_list(s, rdr.pos(), (count - idx) as nat) {
                    Ok((ds, k)) => parse_solana_result_list(s, j0, count as nat) == Ok::<
                        (Seq<SolanaAccountResultView>, int),
                        DecodeError,
                    >((results.deep_view() + ds, k)),
                    Err(e) => parse_solana_result_list(s, j0, count as nat) == Err::<
                        (Seq<SolanaAccountResultView>, int),
                        DecodeError,
                    >(e),
                },
            decreases count - idx,
        {
            let d = match read_solana_account_result(rdr) {
                Ok(d) => d,
                Err(e) => {
                    return Err(e);
                },
            };
            let ghost prev = results.deep_view();
            let ghost dv = d.deep_view();
            proof {
                match parse_solana_result_list(s, rdr.pos(), (count - idx - 1) as nat) {
                    Ok((ds, k)) => {
                        assert(prev + (seq![dv] + ds) =~= (prev + seq![dv]) + ds);
                    },
                    Err(_) => {},
                }
            }
            results.push(d);
            idx = idx + 1;
            proof {
                assert(results.deep_view() =~= prev + seq![dv]);
            }
        }
        proof {
            assert(results.deep_view() + Seq::<SolanaAccountResultView>::empty()
                =~= results.deep_view());
        }
        Ok(SolanaAccountQueryResponse { slot_number, block_time, block_hash, results })
    }
}

impl PerChainQueryResponse {
    /// Decode one per-chain response from the front of `data`.
    pub fn deserialize(data: &[u8]) -> (r: Result<PerChainQueryResponse, DecodeError>)
        ensures
            match r {
                Ok(v) => parse_per_chain_query_response(data@, 0) matches Ok(p) && p.0
                    == v.deep_view(),
                Err(e) => parse_per_chain_query_response(data@, 0) matches Err(pe) && pe == e,
            },
    {
        let mut rdr = Reader::new(data);
        Self::deserialize_from_reader(&mut rdr)
    }

    /// Decode one per-chain response, advancing the shared cursor: chain
    /// id, tag byte, a discarded four-byte payload length, then the
    /// variant selected by the tag.
    pub fn deserialize_from_reader(rdr: &mut Reader) -> (r: Result<
        PerChainQueryResponse,
        DecodeError,
    >)
        requires
            old(rdr).wf(),
        ensures
            final(rdr).wf(),
            final(rdr).bytes() == old(rdr).bytes(),
            match r {
                Ok(v) => parse_per_chain_query_response(old(rdr).bytes(), old(rdr).pos()) == Ok::<
                    (PerChainQueryResponseView, int),
                    DecodeError,
                >((v.deep_view(), final(rdr).pos())),
                Err(e) => parse_per_chain_query_response(old(rdr).bytes(), old(rdr).pos())
                    == Err::<(PerChainQueryResponseView, int), DecodeError>(e),
            },
    {
        let chain_id = match rdr.read_u16_be() {
            Ok(x) => x,
            Err(e) => {
                return Err(e);
            },
        };
        let query_type = match rdr.read_u8() {
            Ok(x) => x,
            Err(e) => {
                return Err(e);
            },
        };
        // The four-byte payload length is carried on the wire but not
        // load-bearing: it is read and discarded, and bounds safety comes
        // from the cursor's own remaining-length tracking.
        match rdr.read_u32_be() {
            Ok(_) => (),
            Err(e) => {
                return Err(e);
            },
        };
        let response: ChainSpecificResponse;
        if query_type == 1 {
            response = match EthCallQueryResponse::deserialize_from_reader(rdr) {
                Ok(v) => ChainSpecificResponse::EthCallQueryResponse(v),
                Err(e) => {
                    return Err(e);
                },
            };
        } else if query_type == 2 {
            response = match EthCallByTimestampQueryResponse::deserialize_from_reader(rdr) {
                Ok(v) => ChainSpecificResponse::EthCallByTimestampQueryResponse(v),
                Err(e) => {
                    return Err(e);
                },
            };
        } else if query_type == 3 {
            response = match EthCallWithFinalityQueryResponse::deserialize_from_reader(rdr) {
                Ok(v) => ChainSpecificResponse::EthCallWithFinalityQueryResponse(v),
                Err(e) => {
                    return Err(e);
                },
            };
        } else if query_type == 4 {
            response = match SolanaAccountQueryResponse::deserialize_from_reader(rdr) {
                Ok(v) => ChainSpecificResponse::SolanaAccountQueryResponse(v),
                Err(e) => {
                    return Err(e);
                },
            };
        } else {
            return Err(DecodeError::UnsupportedResponseType);
        }
        Ok(PerChainQueryResponse { chain_id, response })
    }
}

impl QueryResponse {
    /// Decode a whole response message from `data`. The decode succeeds
    /// if and only if the specification parser accepts the buffer and its
    /// fields end exactly at the end of the input; otherwise it fails
    /// with the very error the specification parser names.
    pub fn deserialize(data: &[u8]) -> (r: Result<QueryResponse, DecodeError>)
        ensures
            match r {
                Ok(v) => spec_decode_query_response(data@) == Ok::<QueryResponseView, DecodeError>(
                    v.deep_view(),
                ),
                Err(e) => spec_decode_query_response(data@) == Err::<
                    QueryResponseView,
                    DecodeError,
                >(e),
            },
    {
        let mut rdr = Reader::new(data);
        Self::deserialize_from_reader(&mut rdr)
    }

    /// Decode a whole response message, advancing the shared cursor, and
    /// demand that the fields end exactly at the end of the buffer.
    #[verifier::loop_isolation(false)]
    #[verifier::rlimit(40)]
    pub fn deserialize_from_reader(rdr: &mut Reader) -> (r: Result<QueryResponse, DecodeError>)
        requires
            old(rdr).wf(),
        ensures
            final(rdr).wf(),
            final(rdr).bytes() == old(rdr).bytes(),
            match r {
                Ok(v) => parse_query_response_exact(old(rdr).bytes(), old(rdr).pos()) == Ok::<
                    (QueryResponseView, int),
                    DecodeError,
                >((v.deep_view(), final(rdr).pos())),
                Err(e) => parse_query_response_exact(old(rdr).bytes(), old(rdr).pos()) == Err::<
                    (QueryResponseView, int),
                    DecodeError,
                >(e),
            },
    {
        let version = match rdr.read_u8() {
            Ok(x) => x,
            Err(e) => {
                return Err(e);
            },
        };
        if version != RESPONSE_VERSION {
            return Err(DecodeError::InvalidResponseVersion);
        }
        // For off-chain requests (chain id zero) the identifier is the
        // 65-byte signature; for on-chain requests it is the 32-byte hash.
        let request_chain_id = match rdr.read_u16_be() {
            Ok(x) => x,
            Err(e) => {
                return Err(e);
            },
        };
        let request_id = if request_chain_id == 0 {
            match rdr.read_exact(65) {
                Ok(v) => v,
                Err(e) => {
                    return Err(e);
                },
            }
        } else {
            match rdr.read_exact(32) {
                Ok(v) => v,
                Err(e) => {
                    return Err(e);
                },
            }
        };
        // The four-byte request length is carried on the wire but not
        // load-bearing: it is read and discarded.
        match rdr.read_u32_be() {
            Ok(_) => (),
            Err(e) => {
                return Err(e);
            },
        };
        let request = match QueryRequest::deserialize_from_reader(rdr) {
            Ok(v) => v,
            Err(e) => {
                return Err(e);
            },
        };
        let num_per_chain_responses = match rdr.read_u8() {
            Ok(x) => x,
            Err(e) => {
                return Err(e);
            },
        };
        let ghost s = rdr.bytes();
        let ghost j0 = rdr.pos();
        let mut responses: Vec<PerChainQueryResponse> = Vec::new();
        let mut idx: u8 = 0;
        while idx < num_per_chain_responses
            invariant
                rdr.wf(),
                rdr.bytes() == s,
                idx <= num_per_chain_responses,
                responses.deep_view().len() == idx as int,
                match parse_per_chain_query_response_list(
                    s,
                    rdr.pos(),
                    (num_per_chain_responses - idx) as nat,
                ) {
                    Ok((ds, k)) => parse_per_chain_query_response_list(
                        s,
                        j0,
                        num_per_chain_responses as nat,
                    ) == Ok::<(Seq<PerChainQueryResponseView>, int), DecodeError>(
                        (responses.deep_view() + ds, k),
                    ),
                    Err(e) => parse_per_chain_query_response_list(
                        s,
                        j0,
                        num_per_chain_responses as nat,
                    ) == Err::<(Seq<PerChainQueryResponseView>, int), DecodeError>(e),
                },
            decreases num_per_chain_responses - idx,
        {
            let q = match PerChainQueryResponse::deserialize_from_reader(rdr) {
                Ok(q) => q,
                Err(e) => {
                    return Err(e);
                },
            };
            let ghost prev = responses.deep_view();
            let ghost qv = q.deep_view();
            proof {
                match parse_per_chain_query_response_list(
                    s,
                    rdr.pos(),
                    (num_per_chain_responses - idx - 1) as nat,
                ) {
                    Ok((ds, k)) => {
                        assert(prev + (seq![qv] + ds) =~= (prev + seq![qv]) + ds);
                    },
                    Err(_) => {},
                }
            }
            responses.push(q);
            idx = idx + 1;
            proof {
                assert(responses.deep_view() =~= prev + seq![qv]);
            }
        }
        proof {
            assert(responses.deep_view() + Seq::<PerChainQueryResponseView>::empty()
                =~= responses.deep_view());
        }
        // The exact-consumption check: the decoded fields must end
        // precisely at the end of the buffer.
        let at_end = rdr.position();
        let total = rdr.total_len();
        if at_end != total {
            return Err(DecodeError::InvalidPayloadLength);
        }
        Ok(QueryResponse { version, request_chain_id, request_id, request, responses })
    }
}

} // verus!
