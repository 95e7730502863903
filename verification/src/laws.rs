//! The laws of the decoder, stated over the specification parsers and
//! proved once and for all: determinism, fail-closed behaviour on version
//! and tag bytes, rejection of truncated buffers, rejection of trailing
//! bytes, the size rule for the provenance identifier, and the meaning of
//! the executable flag.
//!
//! The backbone is one prefix lemma per specification parser: a parse
//! result depends only on the bytes it actually consumed, so on a prefix
//! of the buffer the parse either returns the very same value (when it
//! ended inside the prefix) or fails (when it needed a byte that was cut
//! off). Truncation and trailing-byte rejection both follow from it.

use vstd::prelude::*;

use crate::error::DecodeError;
use crate::query_request::PerChainQueryRequestView;
use crate::query_request::QueryRequestView;
use crate::query_request::parse_account_list;
use crate::query_request::parse_accounts_section;
use crate::query_request::parse_call_data_section;
use crate::query_request::parse_chain_specific_query;
use crate::query_request::parse_eth_call_by_timestamp_request;
use crate::query_request::parse_eth_call_data;
use crate::query_request::parse_eth_call_data_list;
use crate::query_request::parse_eth_call_request;
use crate::query_request::parse_eth_call_with_finality_request;
use crate::query_request::parse_per_chain_query_request;
use crate::query_request::parse_per_chain_query_request_list;
use crate::query_request::parse_query_request;
use crate::query_request::parse_solana_account_request;
use crate::query_request::spec_decode_query_request;
use crate::query_response::PerChainQueryResponseView;
use crate::query_response::QueryResponseView;
use crate::query_response::SolanaAccountResultView;
use crate::query_response::parse_chain_specific_response;
use crate::query_response::parse_eth_call_by_timestamp_response;
use crate::query_response::parse_eth_call_response;
use crate::query_response::parse_eth_call_with_finality_response;
use crate::query_response::parse_per_chain_query_response;
use crate::query_response::parse_per_chain_query_response_list;
use crate::query_response::parse_query_response;
use crate::query_response::parse_result_list;
use crate::query_response::parse_results_section;
use crate::query_response::parse_solana_account_response;
use crate::query_response::parse_solana_account_result;
use crate::query_response::parse_solana_result_list;
use crate::query_response::request_id_len;
use crate::query_response::spec_decode_query_response;
use crate::reader::parse_fixed_bytes;
use crate::reader::parse_len_prefixed_bytes;
use crate::reader::parse_u16_be;
use crate::reader::parse_u32_be;
use crate::reader::parse_u64_be;
use crate::reader::parse_u8;
use crate::reader::parse_utf8_string;

verus! {

/// How a parse over the whole buffer `ps` relates to the parse of a
/// prefix of it, `pt`, where `tlen` is the prefix length: a success that
/// ended inside the prefix is reproduced verbatim, and everything else
/// fails on the prefix.
pub open spec fn prefix_parse_relation<T>(
    ps: Result<(T, int), DecodeError>,
    pt: Result<(T, int), DecodeError>,
    tlen: int,
) -> bool {
    match ps {
        Ok((v, n)) => {
            if n <= tlen {
                pt == Ok::<(T, int), DecodeError>((v, n))
            } else {
                pt is Err
            }
        },
        Err(_e) => pt is Err,
    }
}

/// A successful parse starts at a position inside the buffer and ends at
/// or after its start, never past the end of the buffer.
pub open spec fn parse_ok_bounds<T>(p: Result<(T, int), DecodeError>, i: int, len: int) -> bool {
    p matches Ok(q) ==> 0 <= i <= q.1 <= len
}

// ---------------------------------------------------------------------------
// Prefix lemmas for the primitive parsers
// ---------------------------------------------------------------------------
proof fn lemma_parse_u8_prefix(s: Seq<u8>, t: Seq<u8>, i: int)
    requires
        t.len() <= s.len(),
        t == s.subrange(0, t.len() as int),
    ensures
        parse_ok_bounds(parse_u8(s, i), i, s.len() as int),
        prefix_parse_relation(parse_u8(s, i), parse_u8(t, i), t.len() as int),
{
}

proof fn lemma_parse_u16_be_prefix(s: Seq<u8>, t: Seq<u8>, i: int)
    requires
        t.len() <= s.len(),
        t == s.subrange(0, t.len() as int),
    ensures
        parse_ok_bounds(parse_u16_be(s, i), i, s.len() as int),
        prefix_parse_relation(parse_u16_be(s, i), parse_u16_be(t, i), t.len() as int),
{
}

proof fn lemma_parse_u32_be_prefix(s: Seq<u8>, t: Seq<u8>, i: int)
    requires
        t.len() <= s.len(),
        t == s.subrange(0, t.len() as int),
    ensures
        parse_ok_bounds(parse_u32_be(s, i), i, s.len() as int),
        prefix_parse_relation(parse_u32_be(s, i), parse_u32_be(t, i), t.len() as int),
{
}

proof fn lemma_parse_u64_be_prefix(s: Seq<u8>, t: Seq<u8>, i: int)
    requires
        t.len() <= s.len(),
        t == s.subrange(0, t.len() as int),
    ensures
        parse_ok_bounds(parse_u64_be(s, i), i, s.len() as int),
        prefix_parse_relation(parse_u64_be(s, i), parse_u64_be(t, i), t.len() as int),
{
}

proof fn lemma_parse_fixed_bytes_prefix(s: Seq<u8>, t: Seq<u8>, i: int, n: int)
    requires
        t.len() <= s.len(),
        t == s.subrange(0, t.len() as int),
    ensures
        parse_ok_bounds(parse_fixed_bytes(s, i, n), i, s.len() as int),
        prefix_parse_relation(parse_fixed_bytes(s, i, n), parse_fixed_bytes(t, i, n), t.len() as int),
{
    if 0 <= i && 0 <= n && i + n <= t.len() {
        assert(t.subrange(i, i + n) =~= s.subrange(i, i + n));
    }
}

proof fn lemma_parse_len_prefixed_bytes_prefix(s: Seq<u8>, t: Seq<u8>, i: int)
    requires
        t.len() <= s.len(),
        t == s.subrange(0, t.len() as int),
    ensures
        parse_ok_bounds(parse_len_prefixed_bytes(s, i), i, s.len() as int),
        prefix_parse_relation(
            parse_len_prefixed_bytes(s, i),
            parse_len_prefixed_bytes(t, i),
            t.len() as int,
        ),
{
    lemma_parse_u32_be_prefix(s, t, i);
    match parse_u32_be(s, i) {
        Ok((len, j)) => {
            if j + len <= t.len() {
                assert(t.subrange(j, j + len) =~= s.subrange(j, j + len));
            }
        },
        Err(_) => {},
    }
}

proof fn lemma_parse_utf8_string_prefix(s: Seq<u8>, t: Seq<u8>, i: int)
    requires
        t.len() <= s.len(),
        t == s.subrange(0, t.len() as int),
    ensures
        parse_ok_bounds(parse_utf8_string(s, i), i, s.len() as int),
        prefix_parse_relation(parse_utf8_string(s, i), parse_utf8_string(t, i), t.len() as int),
{
    lemma_parse_len_prefixed_bytes_prefix(s, t, i);
}

// ---------------------------------------------------------------------------
// Prefix lemmas for the request-side parsers
// ---------------------------------------------------------------------------
proof fn lemma_parse_eth_call_data_prefix(s: Seq<u8>, t: Seq<u8>, i: int)
    requires
        t.len() <= s.len(),
        t == s.subrange(0, t.len() as int),
    ensures
        parse_ok_bounds(parse_eth_call_data(s, i), i, s.len() as int),
        prefix_parse_relation(parse_eth_call_data(s, i), parse_eth_call_data(t, i), t.len() as int),
{
    lemma_parse_fixed_bytes_prefix(s, t, i, 20);
    match parse_fixed_bytes(s, i, 20) {
        Ok((_to, j)) => {
            lemma_parse_len_prefixed_bytes_prefix(s, t, j);
        },
        Err(_) => {},
    }
}

proof fn lemma_parse_eth_call_data_list_prefix(s: Seq<u8>, t: Seq<u8>, i: int, n: nat)
    requires
        t.len() <= s.len(),
        t == s.subrange(0, t.len() as int),
    ensures
        parse_ok_bounds(parse_eth_call_data_list(s, i, n), i, s.len() as int),
        prefix_parse_relation(
            parse_eth_call_data_list(s, i, n),
            parse_eth_call_data_list(t, i, n),
            t.len() as int,
        ),
    decreases n,
{
    if n == 0 {
    } else {
        lemma_parse_eth_call_data_prefix(s, t, i);
        match parse_eth_call_data(s, i) {
            Ok((_d, j)) => {
                lemma_parse_eth_call_data_list_prefix(s, t, j, (n - 1) as nat);
            },
            Err(_) => {},
        }
    }
}

proof fn lemma_parse_call_data_section_prefix(s: Seq<u8>, t: Seq<u8>, i: int)
    requires
        t.len() <= s.len(),
        t == s.subrange(0, t.len() as int),
    ensures
        parse_ok_bounds(parse_call_data_section(s, i), i, s.len() as int),
        prefix_parse_relation(
            parse_call_data_section(s, i),
            parse_call_data_section(t, i),
            t.len() as int,
        ),
{
    lemma_parse_u8_prefix(s, t, i);
    match parse_u8(s, i) {
        Ok((count, j)) => {
            lemma_parse_eth_call_data_list_prefix(s, t, j, count as nat);
        },
        Err(_) => {},
    }
}

proof fn lemma_parse_eth_call_request_prefix(s: Seq<u8>, t: Seq<u8>, i: int)
    requires
        t.len() <= s.len(),
        t == s.subrange(0, t.len() as int),
    ensures
        parse_ok_bounds(parse_eth_call_request(s, i), i, s.len() as int),
        prefix_parse_relation(
            parse_eth_call_request(s, i),
            parse_eth_call_request(t, i),
            t.len() as int,
        ),
{
    lemma_parse_utf8_string_prefix(s, t, i);
    match parse_utf8_string(s, i) {
        Ok((_bt, j)) => {
            lemma_parse_call_data_section_prefix(s, t, j);
        },
        Err(_) => {},
    }
}

proof fn lemma_parse_eth_call_by_timestamp_request_prefix(s: Seq<u8>, t: Seq<u8>, i: int)
    requires
        t.len() <= s.len(),
        t == s.subrange(0, t.len() as int),
    ensures
        parse_ok_bounds(parse_eth_call_by_timestamp_request(s, i), i, s.len() as int),
        prefix_parse_relation(
            parse_eth_call_by_timestamp_request(s, i),
            parse_eth_call_by_timestamp_request(t, i),
            t.len() as int,
        ),
{
    lemma_parse_u64_be_prefix(s, t, i);
    match parse_u64_be(s, i) {
        Ok((_ts, j)) => {
            lemma_parse_utf8_string_prefix(s, t, j);
            match parse_utf8_string(s, j) {
                Ok((_h1, k)) => {
                    lemma_parse_utf8_string_prefix(s, t, k);
                    match parse_utf8_string(s, k) {
                        Ok((_h2, m)) => {
                            lemma_parse_call_data_section_prefix(s, t, m);
                        },
                        Err(_) => {},
                    }
                },
                Err(_) => {},
            }
        },
        Err(_) => {},
    }
}

proof fn lemma_parse_eth_call_with_finality_request_prefix(s: Seq<u8>, t: Seq<u8>, i: int)
    requires
        t.len() <= s.len(),
        t == s.subrange(0, t.len() as int),
    ensures
        parse_ok_bounds(parse_eth_call_with_finality_request(s, i), i, s.len() as int),
        prefix_parse_relation(
            parse_eth_call_with_finality_request(s, i),
            parse_eth_call_with_finality_request(t, i),
            t.len() as int,
        ),
{
    lemma_parse_utf8_string_prefix(s, t, i);
    match parse_utf8_string(s, i) {
        Ok((_bt, j)) => {
            lemma_parse_utf8_string_prefix(s, t, j);
            match parse_utf8_string(s, j) {
                Ok((_fin, k)) => {
                    lemma_parse_call_data_section_prefix(s, t, k);
                },
                Err(_) => {},
            }
        },
        Err(_) => {},
    }
}

proof fn lemma_parse_account_list_prefix(s: Seq<u8>, t: Seq<u8>, i: int, n: nat)
    requires
        t.len() <= s.len(),
        t == s.subrange(0, t.len() as int),
    ensures
        parse_ok_bounds(parse_account_list(s, i, n), i, s.len() as int),
        prefix_parse_relation(
            parse_account_list(s, i, n),
            parse_account_list(t, i, n),
            t.len() as int,
        ),
    decreases n,
{
    if n == 0 {
    } else {
        lemma_parse_fixed_bytes_prefix(s, t, i, 32);
        match parse_fixed_bytes(s, i, 32) {
            Ok((_a, j)) => {
                lemma_parse_account_list_prefix(s, t, j, (n - 1) as nat);
            },
            Err(_) => {},
        }
    }
}

proof fn lemma_parse_accounts_section_prefix(s: Seq<u8>, t: Seq<u8>, i: int)
    requires
        t.len() <= s.len(),
        t == s.subrange(0, t.len() as int),
    ensures
        parse_ok_bounds(parse_accounts_section(s, i), i, s.len() as int),
        prefix_parse_relation(
            parse_accounts_section(s, i),
            parse_accounts_section(t, i),
            t.len() as int,
        ),
{
    lemma_parse_u8_prefix(s, t, i);
    match parse_u8(s, i) {
        Ok((count, j)) => {
            lemma_parse_account_list_prefix(s, t, j, count as nat);
        },
        Err(_) => {},
    }
}

proof fn lemma_parse_solana_account_request_prefix(s: Seq<u8>, t: Seq<u8>, i: int)
    requires
        t.len() <= s.len(),
        t == s.subrange(0, t.len() as int),
    ensures
        parse_ok_bounds(parse_solana_account_request(s, i), i, s.len() as int),
        prefix_parse_relation(
            parse_solana_account_request(s, i),
            parse_solana_account_request(t, i),
            t.len() as int,
        ),
{
    lemma_parse_utf8_string_prefix(s, t, i);
    match parse_utf8_string(s, i) {
        Ok((_c, j)) => {
            lemma_parse_u64_be_prefix(s, t, j);
            match parse_u64_be(s, j) {
                Ok((_x1, k)) => {
                    lemma_parse_u64_be_prefix(s, t, k);
                    match parse_u64_be(s, k) {
                        Ok((_x2, m)) => {
                            lemma_parse_u64_be_prefix(s, t, m);
                            match parse_u64_be(s, m) {
                                Ok((_x3, n)) => {
                                    lemma_parse_accounts_section_prefix(s, t, n);
                                },
                                Err(_) => {},
                            }
                        },
                        Err(_) => {},
                    }
                },
                Err(_) => {},
            }
        },
        Err(_) => {},
    }
}

proof fn lemma_parse_chain_specific_query_prefix(s: Seq<u8>, t: Seq<u8>, i: int, tag: u8)
    requires
        t.len() <= s.len(),
        t == s.subrange(0, t.len() as int),
    ensures
        parse_ok_bounds(parse_chain_specific_query(s, i, tag), i, s.len() as int),
        prefix_parse_relation(
            parse_chain_specific_query(s, i, tag),
            parse_chain_specific_query(t, i, tag),
            t.len() as int,
        ),
{
    if tag == 1 {
        lemma_parse_eth_call_request_prefix(s, t, i);
    } else if tag == 2 {
        lemma_parse_eth_call_by_timestamp_request_prefix(s, t, i);
    } else if tag == 3 {
        lemma_parse_eth_call_with_finality_request_prefix(s, t, i);
    } else if tag == 4 {
        lemma_parse_solana_account_request_prefix(s, t, i);
    }
}

proof fn lemma_parse_per_chain_query_request_prefix(s: Seq<u8>, t: Seq<u8>, i: int)
    requires
        t.len() <= s.len(),
        t == s.subrange(0, t.len() as int),
    ensures
        parse_ok_bounds(parse_per_chain_query_request(s, i), i, s.len() as int),
        prefix_parse_relation(
            parse_per_chain_query_request(s, i),
            parse_per_chain_query_request(t, i),
            t.len() as int,
        ),
{
    lemma_parse_u16_be_prefix(s, t, i);
    match parse_u16_be(s, i) {
        Ok((_cid, j)) => {
            lemma_parse_u8_prefix(s, t, j);
            match parse_u8(s, j) {
                Ok((tag, k)) => {
                    lemma_parse_u32_be_prefix(s, t, k);
                    match parse_u32_be(s, k) {
                        Ok((_len, m)) => {
                            lemma_parse_chain_specific_query_prefix(s, t, m, tag);
                        },
                        Err(_) => {},
                    }
                },
                Err(_) => {},
            }
        },
        Err(_) => {},
    }
}

proof fn lemma_parse_per_chain_query_request_list_prefix(s: Seq<u8>, t: Seq<u8>, i: int, n: nat)
    requires
        t.len() <= s.len(),
        t == s.subrange(0, t.len() as int),
    ensures
        parse_ok_bounds(parse_per_chain_query_request_list(s, i, n), i, s.len() as int),
        prefix_parse_relation(
            parse_per_chain_query_request_list(s, i, n),
            parse_per_chain_query_request_list(t, i, n),
            t.len() as int,
        ),
    decreases n,
{
    if n == 0 {
    } else {
        lemma_parse_per_chain_query_request_prefix(s, t, i);
        match parse_per_chain_query_request(s, i) {
            Ok((_q, j)) => {
                lemma_parse_per_chain_query_request_list_prefix(s, t, j, (n - 1) as nat);
            },
            Err(_) => {},
        }
    }
}

proof fn lemma_parse_query_request_prefix(s: Seq<u8>, t: Seq<u8>, i: int)
    requires
        t.len() <= s.len(),
        t == s.subrange(0, t.len() as int),
    ensures
        parse_ok_bounds(parse_query_request(s, i), i, s.len() as int),
        prefix_parse_relation(
            parse_query_request(s, i),
            parse_query_request(t, i),
            t.len() as int,
        ),
{
    lemma_parse_u8_prefix(s, t, i);
    match parse_u8(s, i) {
        Ok((version, j)) => {
            if version == crate::query_request::REQUEST_VERSION {
                lemma_parse_u32_be_prefix(s, t, j);
                match parse_u32_be(s, j) {
                    Ok((_nonce, k)) => {
                        lemma_parse_u8_prefix(s, t, k);
                        match parse_u8(s, k) {
                            Ok((count, m)) => {
                                if count != 0 {
                                    lemma_parse_per_chain_query_request_list_prefix(
                                        s,
                                        t,
                                        m,
                                        count as nat,
                                    );
                                }
                            },
                            Err(_) => {},
                        }
                    },
                    Err(_) => {},
                }
            }
        },
        Err(_) => {},
    }
}

// ---------------------------------------------------------------------------
// Prefix lemmas for the response-side parsers
// ---------------------------------------------------------------------------
proof fn lemma_parse_result_list_prefix(s: Seq<u8>, t: Seq<u8>, i: int, n: nat)
    requires
        t.len() <= s.len(),
        t == s.subrange(0, t.len() as int),
    ensures
        parse_ok_bounds(parse_result_list(s, i, n), i, s.len() as int),
        prefix_parse_relation(
            parse_result_list(s, i, n),
            parse_result_list(t, i, n),
            t.len() as int,
        ),
    decreases n,
{
    if n == 0 {
    } else {
        lemma_parse_len_prefixed_bytes_prefix(s, t, i);
        match parse_len_prefixed_bytes(s, i) {
            Ok((_b, j)) => {
                lemma_parse_result_list_prefix(s, t, j, (n - 1) as nat);
            },
            Err(_) => {},
        }
    }
}

proof fn lemma_parse_results_section_prefix(s: Seq<u8>, t: Seq<u8>, i: int)
    requires
        t.len() <= s.len(),
        t == s.subrange(0, t.len() as int),
    ensures
        parse_ok_bounds(parse_results_section(s, i), i, s.len() as int),
        prefix_parse_relation(
            parse_results_section(s, i),
            parse_results_section(t, i),
            t.len() as int,
        ),
{
    lemma_parse_u8_prefix(s, t, i);
    match parse_u8(s, i) {
        Ok((count, j)) => {
            lemma_parse_result_list_prefix(s, t, j, count as nat);
        },
        Err(_) => {},
    }
}

proof fn lemma_parse_eth_call_response_prefix(s: Seq<u8>, t: Seq<u8>, i: int)
    requires
        t.len() <= s.len(),
        t == s.subrange(0, t.len() as int),
    ensures
        parse_ok_bounds(parse_eth_call_response(s, i), i, s.len() as int),
        prefix_parse_relation(
            parse_eth_call_response(s, i),
            parse_eth_call_response(t, i),
            t.len() as int,
        ),
{
    lemma_parse_u64_be_prefix(s, t, i);
    match parse_u64_be(s, i) {
        Ok((_bn, j)) => {
            lemma_parse_fixed_bytes_prefix(s, t, j, 32);
            match parse_fixed_bytes(s, j, 32) {
                Ok((_bh, k)) => {
                    lemma_parse_u64_be_prefix(s, t, k);
                    match parse_u64_be(s, k) {
                        Ok((_bt, m)) => {
                            lemma_parse_results_section_prefix(s, t, m);
                        },
                        Err(_) => {},
                    }
                },
                Err(_) => {},
            }
        },
        Err(_) => {},
    }
}

proof fn lemma_parse_eth_call_by_timestamp_response_prefix(s: Seq<u8>, t: Seq<u8>, i: int)
    requires
        t.len() <= s.len(),
        t == s.subrange(0, t.len() as int),
    ensures
        parse_ok_bounds(parse_eth_call_by_timestamp_response(s, i), i, s.len() as int),
        prefix_parse_relation(
            parse_eth_call_by_timestamp_response(s, i),
            parse_eth_call_by_timestamp_response(t, i),
            t.len() as int,
        ),
{
    lemma_parse_u64_be_prefix(s, t, i);
    match parse_u64_be(s, i) {
        Ok((_n1, j1)) => {
            lemma_parse_fixed_bytes_prefix(s, t, j1, 32);
            match parse_fixed_bytes(s, j1, 32) {
                Ok((_h1, j2)) => {
                    lemma_parse_u64_be_prefix(s, t, j2);
                    match parse_u64_be(s, j2) {
                        Ok((_t1, j3)) => {
                            lemma_parse_u64_be_prefix(s, t, j3);
                            match parse_u64_be(s, j3) {
                                Ok((_n2, j4)) => {
                                    lemma_parse_fixed_bytes_prefix(s, t, j4, 32);
                                    match parse_fixed_bytes(s, j4, 32) {
                                        Ok((_h2, j5)) => {
                                            lemma_parse_u64_be_prefix(s, t, j5);
                                            match parse_u64_be(s, j5) {
                                                Ok((_t2, j6)) => {
                                                    lemma_parse_results_section_prefix(s, t, j6);
                                                },
                                                Err(_) => {},
                                            }
                                        },
                                        Err(_) => {},
                                    }
                                },
                                Err(_) => {},
                            }
                        },
                        Err(_) => {},
                    }
                },
                Err(_) => {},
            }
        },
        Err(_) => {},
    }
}

proof fn lemma_parse_eth_call_with_finality_response_prefix(s: Seq<u8>, t: Seq<u8>, i: int)
    requires
        t.len() <= s.len(),
        t == s.subrange(0, t.len() as int),
    ensures
        parse_ok_bounds(parse_eth_call_with_finality_response(s, i), i, s.len() as int),
        prefix_parse_relation(
            parse_eth_call_with_finality_response(s, i),
            parse_eth_call_with_finality_response(t, i),
            t.len() as int,
        ),
{
    lemma_parse_eth_call_response_prefix(s, t, i);
}

proof fn lemma_parse_solana_account_result_prefix(s: Seq<u8>, t: Seq<u8>, i: int)
    requires
        t.len() <= s.len(),
        t == s.subrange(0, t.len() as int),
    ensures
        parse_ok_bounds(parse_solana_account_result(s, i), i, s.len() as int),
        prefix_parse_relation(
            parse_solana_account_result(s, i),
            parse_solana_account_result(t, i),
            t.len() as int,
        ),
{
    lemma_parse_u64_be_prefix(s, t, i);
    match parse_u64_be(s, i) {
        Ok((_lam, j)) => {
            lemma_parse_u64_be_prefix(s, t, j);
            match parse_u64_be(s, j) {
                Ok((_re, k)) => {
                    lemma_parse_u8_prefix(s, t, k);
                    match parse_u8(s, k) {
                        Ok((_ex, m)) => {
                            lemma_parse_fixed_bytes_prefix(s, t, m, 32);
                            match parse_fixed_bytes(s, m, 32) {
                                Ok((_own, n)) => {
                                    lemma_parse_len_prefixed_bytes_prefix(s, t, n);
                                },
                                Err(_) => {},
                            }
                        },
                        Err(_) => {},
                    }
                },
                Err(_) => {},
            }
        },
        Err(_) => {},
    }
}

proof fn lemma_parse_solana_result_list_prefix(s: Seq<u8>, t: Seq<u8>, i: int, n: nat)
    requires
        t.len() <= s.len(),
        t == s.subrange(0, t.len() as int),
    ensures
        parse_ok_bounds(parse_solana_result_list(s, i, n), i, s.len() as int),
        prefix_parse_relation(
            parse_solana_result_list(s, i, n),
            parse_solana_result_list(t, i, n),
            t.len() as int,
        ),
    decreases n,
{
    if n == 0 {
    } else {
        lemma_parse_solana_account_result_prefix(s, t, i);
        match parse_solana_account_result(s, i) {
            Ok((_d, j)) => {
                lemma_parse_solana_result_list_prefix(s, t, j, (n - 1) as nat);
            },
            Err(_) => {},
        }
    }
}

proof fn lemma_parse_solana_account_response_prefix(s: Seq<u8>, t: Seq<u8>, i: int)
    requires
        t.len() <= s.len(),
        t == s.subrange(0, t.len() as int),
    ensures
        parse_ok_bounds(parse_solana_account_response(s, i), i, s.len() as int),
        prefix_parse_relation(
            parse_solana_account_response(s, i),
            parse_solana_account_response(t, i),
            t.len() as int,
        ),
{
    lemma_parse_u64_be_prefix(s, t, i);
    match parse_u64_be(s, i) {
        Ok((_slot, j)) => {
            lemma_parse_u64_be_prefix(s, t, j);
            match parse_u64_be(s, j) {
                Ok((_bt, k)) => {
                    lemma_parse_fixed_bytes_prefix(s, t, k, 32);
                    match parse_fixed_bytes(s, k, 32) {
                        Ok((_bh, m)) => {
                            lemma_parse_u8_prefix(s, t, m);
                            match parse_u8(s, m) {
                                Ok((count, n)) => {
                                    lemma_parse_solana_result_list_prefix(s, t, n, count as nat);
                                },
                                Err(_) => {},
                            }
                        },
                        Err(_) => {},
                    }
                },
                Err(_) => {},
            }
        },
        Err(_) => {},
    }
}

proof fn lemma_parse_chain_specific_response_prefix(s: Seq<u8>, t: Seq<u8>, i: int, tag: u8)
    requires
        t.len() <= s.len(),
        t == s.subrange(0, t.len() as int),
    ensures
        parse_ok_bounds(parse_chain_specific_response(s, i, tag), i, s.len() as int),
        prefix_parse_relation(
            parse_chain_specific_response(s, i, tag),
            parse_chain_specific_response(t, i, tag),
            t.len() as int,
        ),
{
    if tag == 1 {
        lemma_parse_eth_call_response_prefix(s, t, i);
    } else if tag == 2 {
        lemma_parse_eth_call_by_timestamp_response_prefix(s, t, i);
    } else if tag == 3 {
        lemma_parse_eth_call_with_finality_response_prefix(s, t, i);
    } else if tag == 4 {
        lemma_parse_solana_account_response_prefix(s, t, i);
    }
}

proof fn lemma_parse_per_chain_query_response_prefix(s: Seq<u8>, t: Seq<u8>, i: int)
    requires
        t.len() <= s.len(),
        t == s.subrange(0, t.len() as int),
    ensures
        parse_ok_bounds(parse_per_chain_query_response(s, i), i, s.len() as int),
        prefix_parse_relation(
            parse_per_chain_query_response(s, i),
            parse_per_chain_query_response(t, i),
            t.len() as int,
        ),
{
    lemma_parse_u16_be_prefix(s, t, i);
    match parse_u16_be(s, i) {
        Ok((_cid, j)) => {
            lemma_parse_u8_prefix(s, t, j);
            match parse_u8(s, j) {
                Ok((tag, k)) => {
                    lemma_parse_u32_be_prefix(s, t, k);
                    match parse_u32_be(s, k) {
                        Ok((_len, m)) => {
                            lemma_parse_chain_specific_response_prefix(s, t, m, tag);
                        },
                        Err(_) => {},
                    }
                },
                Err(_) => {},
            }
        },
        Err(_) => {},
    }
}

proof fn lemma_parse_per_chain_query_response_list_prefix(s: Seq<u8>, t: Seq<u8>, i: int, n: nat)
    requires
        t.len() <= s.len(),
        t == s.subrange(0, t.len() as int),
    ensures
        parse_ok_bounds(parse_per_chain_query_response_list(s, i, n), i, s.len() as int),
        prefix_parse_relation(
            parse_per_chain_query_response_list(s, i, n),
            parse_per_chain_query_response_list(t, i, n),
            t.len() as int,
        ),
    decreases n,
{
    if n == 0 {
    } else {
        lemma_parse_per_chain_query_response_prefix(s, t, i);
        match parse_per_chain_query_response(s, i) {
            Ok((_q, j)) => {
                lemma_parse_per_chain_query_response_list_prefix(s, t, j, (n - 1) as nat);
            },
            Err(_) => {},
        }
    }
}

proof fn lemma_parse_query_response_prefix(s: Seq<u8>, t: Seq<u8>, i: int)
    requires
        t.len() <= s.len(),
        t == s.subrange(0, t.len() as int),
    ensures
        parse_ok_bounds(parse_query_response(s, i), i, s.len() as int),
        prefix_parse_relation(
            parse_query_response(s, i),
            parse_query_response(t, i),
            t.len() as int,
        ),
{
    lemma_parse_u8_prefix(s, t, i);
    match parse_u8(s, i) {
        Ok((version, j1)) => {
            if version == crate::query_response::RESPONSE_VERSION {
                lemma_parse_u16_be_prefix(s, t, j1);
                match parse_u16_be(s, j1) {
                    Ok((request_chain_id, j2)) => {
                        lemma_parse_fixed_bytes_prefix(s, t, j2, request_id_len(request_chain_id));
                        match parse_fixed_bytes(s, j2, request_id_len(request_chain_id)) {
                            Ok((_rid, j3)) => {
                                lemma_parse_u32_be_prefix(s, t, j3);
                                match parse_u32_be(s, j3) {
                                    Ok((_len, j4)) => {
                                        lemma_parse_query_request_prefix(s, t, j4);
                                        match parse_query_request(s, j4) {
                                            Ok((_req, j5)) => {
                                                lemma_parse_u8_prefix(s, t, j5);
                                                match parse_u8(s, j5) {
                                                    Ok((count, j6)) => {
                                                        lemma_parse_per_chain_query_response_list_prefix(
                                                            s,
                                                            t,
                                                            j6,
                                                            count as nat,
                                                        );
                                                    },
                                                    Err(_) => {},
                                                }
                                            },
                                            Err(_) => {},
                                        }
                                    },
                                    Err(_) => {},
                                }
                            },
                            Err(_) => {},
                        }
                    },
                    Err(_) => {},
                }
            }
        },
        Err(_) => {},
    }
}


// ---------------------------------------------------------------------------
// The laws
// ---------------------------------------------------------------------------
/// Decoding is a pure function of the input bytes: the parse of a request
/// buffer has exactly one outcome, so decoding the same buffer twice
/// yields structurally equal results.
pub proof fn lemma_request_decode_deterministic(
    s1: Seq<u8>,
    s2: Seq<u8>,
    r1: Result<QueryRequestView, DecodeError>,
    r2: Result<QueryRequestView, DecodeError>,
)
    requires
        s1 == s2,
        r1 == spec_decode_query_request(s1),
        r2 == spec_decode_query_request(s2),
    ensures
        r1 == r2,
{
}

/// Decoding is a pure function of the input bytes: the parse of a
/// response buffer has exactly one outcome, so decoding the same buffer
/// twice yields structurally equal results.
pub proof fn lemma_response_decode_deterministic(
    s1: Seq<u8>,
    s2: Seq<u8>,
    r1: Result<QueryResponseView, DecodeError>,
    r2: Result<QueryResponseView, DecodeError>,
)
    requires
        s1 == s2,
        r1 == spec_decode_query_response(s1),
        r2 == spec_decode_query_response(s2),
    ensures
        r1 == r2,
{
}

/// A request buffer whose version byte is not the supported version is
/// rejected with `VersionMismatch`, whatever the rest of the bytes hold.
pub proof fn lemma_request_version_mismatch(s: Seq<u8>)
    requires
        s.len() >= 1,
        s[0] != 1,
    ensures
        spec_decode_query_request(s) == Err::<QueryRequestView, DecodeError>(
            DecodeError::VersionMismatch,
        ),
{
}

/// A response buffer whose version byte is not the supported version is
/// rejected with `InvalidResponseVersion`, whatever the rest of the bytes
/// hold.
pub proof fn lemma_response_version_mismatch(s: Seq<u8>)
    requires
        s.len() >= 1,
        s[0] != 1,
    ensures
        spec_decode_query_response(s) == Err::<QueryResponseView, DecodeError>(
            DecodeError::InvalidResponseVersion,
        ),
{
}

/// A request that declares zero per-chain queries is rejected with
/// `ZeroQueries`, whatever follows the count byte.
pub proof fn lemma_request_zero_queries(s: Seq<u8>)
    requires
        s.len() >= 6,
        s[0] == 1,
        s[5] == 0,
    ensures
        spec_decode_query_request(s) == Err::<QueryRequestView, DecodeError>(
            DecodeError::ZeroQueries,
        ),
{
}

/// A per-chain query whose tag byte is outside the supported set `1..=4`
/// is rejected with `UnsupportedQueryType`. The tag byte sits after the
/// two-byte chain id, and the rejection happens right after the four-byte
/// payload length that follows it has been read.
pub proof fn lemma_unsupported_query_type(s: Seq<u8>, i: int)
    requires
        0 <= i,
        i + 7 <= s.len(),
        !(1 <= s[i + 2] <= 4),
    ensures
        parse_per_chain_query_request(s, i) == Err::<(PerChainQueryRequestView, int), DecodeError>(
            DecodeError::UnsupportedQueryType,
        ),
{
}

/// A per-chain response whose tag byte is outside the supported set
/// `1..=4` is rejected with `UnsupportedResponseType`.
pub proof fn lemma_unsupported_response_type(s: Seq<u8>, i: int)
    requires
        0 <= i,
        i + 7 <= s.len(),
        !(1 <= s[i + 2] <= 4),
    ensures
        parse_per_chain_query_response(s, i) == Err::<
            (PerChainQueryResponseView, int),
            DecodeError,
        >(DecodeError::UnsupportedResponseType),
{
}

/// Truncation is always caught on the request side: when a request parse
/// succeeds after consuming `n` bytes, cutting the buffer anywhere
/// strictly before `n` makes the decode fail. No partial value is ever
/// produced.
pub proof fn lemma_request_truncation_fails(s: Seq<u8>, v: QueryRequestView, n: int, m: int)
    requires
        parse_query_request(s, 0) == Ok::<(QueryRequestView, int), DecodeError>((v, n)),
        0 <= m < n,
    ensures
        parse_query_request(s.subrange(0, m), 0) is Err,
        spec_decode_query_request(s.subrange(0, m)) is Err,
{
    assert(s =~= s.subrange(0, s.len() as int));
    lemma_parse_query_request_prefix(s, s, 0);
    let t = s.subrange(0, m);
    assert(t =~= s.subrange(0, t.len() as int));
    lemma_parse_query_request_prefix(s, t, 0);
}

/// Truncation is always caught on the response side: when a response
/// buffer decodes successfully, cutting it anywhere strictly before its
/// end makes the decode fail.
pub proof fn lemma_response_truncation_fails(s: Seq<u8>, v: QueryResponseView, m: int)
    requires
        spec_decode_query_response(s) == Ok::<QueryResponseView, DecodeError>(v),
        0 <= m < s.len(),
    ensures
        spec_decode_query_response(s.subrange(0, m)) is Err,
{
    let t = s.subrange(0, m);
    lemma_parse_query_response_prefix(s, t, 0);
}

/// The provenance identifier is exactly 65 bytes when the requesting
/// chain id is zero (an off-chain signature) and exactly 32 bytes
/// otherwise (an on-chain message hash), in every successfully parsed
/// response.
pub proof fn lemma_request_id_size(s: Seq<u8>, i: int, v: QueryResponseView, n: int)
    requires
        parse_query_response(s, i) == Ok::<(QueryResponseView, int), DecodeError>((v, n)),
    ensures
        v.request_id.len() == request_id_len(v.request_chain_id),
        v.request_chain_id == 0 ==> v.request_id.len() == 65,
        v.request_chain_id != 0 ==> v.request_id.len() == 32,
{
}

/// A response buffer with one extra byte appended after an otherwise
/// fully consumed, valid message is rejected with
/// `InvalidPayloadLength`, whatever the appended byte is.
pub proof fn lemma_response_trailing_byte_fails(s: Seq<u8>, b: u8, v: QueryResponseView)
    requires
        spec_decode_query_response(s) == Ok::<QueryResponseView, DecodeError>(v),
    ensures
        spec_decode_query_response(s.push(b)) == Err::<QueryResponseView, DecodeError>(
            DecodeError::InvalidPayloadLength,
        ),
{
    let s2 = s.push(b);
    assert(s =~= s2.subrange(0, s.len() as int));
    lemma_parse_query_response_prefix(s2, s, 0);
}

/// The executable flag of an account snapshot decodes to false exactly
/// for byte value zero and to true for every other byte value. The flag
/// byte sits 16 bytes into the snapshot, after lamports and rent epoch.
pub proof fn lemma_executable_flag(s: Seq<u8>, i: int, v: SolanaAccountResultView, n: int)
    requires
        parse_solana_account_result(s, i) == Ok::<(SolanaAccountResultView, int), DecodeError>(
            (v, n),
        ),
    ensures
        v.executable == (s[i + 16] != 0),
{
}


proof fn lemma_parse_per_chain_query_request_list_len(s: Seq<u8>, i: int, n: nat)
    ensures
        parse_per_chain_query_request_list(s, i, n) matches Ok(p) ==> p.0.len() == n,
    decreases n,
{
    if n == 0 {
    } else {
        match parse_per_chain_query_request(s, i) {
            Ok((_q, j)) => {
                lemma_parse_per_chain_query_request_list_len(s, j, (n - 1) as nat);
            },
            Err(_) => {},
        }
    }
}

/// Every successfully decoded request carries the supported version and
/// at least one per-chain query: the non-emptiness invariant holds of
/// every value this decoder ever hands out.
pub proof fn lemma_decoded_request_invariant(s: Seq<u8>, v: QueryRequestView)
    requires
        spec_decode_query_request(s) == Ok::<QueryRequestView, DecodeError>(v),
    ensures
        v.version == 1,
        v.requests.len() >= 1,
{
    match parse_u8(s, 0) {
        Ok((_version, j)) => {
            match parse_u32_be(s, j) {
                Ok((_nonce, k)) => {
                    match parse_u8(s, k) {
                        Ok((count, m)) => {
                            lemma_parse_per_chain_query_request_list_len(s, m, count as nat);
                        },
                        Err(_) => {},
                    }
                },
                Err(_) => {},
            }
        },
        Err(_) => {},
    }
}

/// Every successfully decoded response carries the supported version,
/// and its embedded request satisfies the request invariant in turn.
pub proof fn lemma_decoded_response_invariant(s: Seq<u8>, v: QueryResponseView)
    requires
        spec_decode_query_response(s) == Ok::<QueryResponseView, DecodeError>(v),
    ensures
        v.version == 1,
        v.request.version == 1,
        v.request.requests.len() >= 1,
{
    match parse_u8(s, 0) {
        Ok((_version, j1)) => {
            match parse_u16_be(s, j1) {
                Ok((request_chain_id, j2)) => {
                    match parse_fixed_bytes(s, j2, request_id_len(request_chain_id)) {
                        Ok((_rid, j3)) => {
                            match parse_u32_be(s, j3) {
                                Ok((_len, j4)) => {
                                    match parse_query_request(s, j4) {
                                        Ok((_req, _j5)) => {
                                            match parse_u8(s, j4) {
                                                Ok((_ver2, k1)) => {
                                                    match parse_u32_be(s, k1) {
                                                        Ok((_nonce, k2)) => {
                                                            match parse_u8(s, k2) {
                                                                Ok((count, k3)) => {
                                                                    lemma_parse_per_chain_query_request_list_len(
                                                                        s,
                                                                        k3,
                                                                        count as nat,
                                                                    );
                                                                },
                                                                Err(_) => {},
                                                            }
                                                        },
                                                        Err(_) => {},
                                                    }
                                                },
                                                Err(_) => {},
                                            }
                                        },
                                        Err(_) => {},
                                    }
                                },
                                Err(_) => {},
                            }
                        },
                        Err(_) => {},
                    }
                },
                Err(_) => {},
            }
        },
        Err(_) => {},
    }
}

} // verus!
