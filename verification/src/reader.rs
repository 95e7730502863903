//! The primitive cursor reader and the specification-level parsers for the
//! primitive wire fields: fixed-width big-endian integers, fixed-size byte
//! runs, length-prefixed byte runs, and length-prefixed UTF-8 strings.
//!
//! Every specification parser takes the whole buffer and a position and
//! returns either the parsed value together with the position just past it,
//! or the error the decoder reports. The executable reads on [`Reader`] are
//! proved to agree with these parsers exactly.

use vstd::prelude::*;
use vstd::slice::slice_index_get;
use vstd::utf8::decode_utf8;
use vstd::utf8::valid_utf8;

use crate::error::DecodeError;

verus! {

/// The value of two big-endian bytes.
pub open spec fn be_u16(b0: u8, b1: u8) -> u16 {
    (b0 as int * 0x100 + b1 as int) as u16
}

/// The value of four big-endian bytes.
pub open spec fn be_u32(b0: u8, b1: u8, b2: u8, b3: u8) -> u32 {
    (b0 as int * 0x100_0000 + b1 as int * 0x1_0000 + b2 as int * 0x100 + b3 as int) as u32
}

/// The value of eight big-endian bytes.
pub open spec fn be_u64(b0: u8, b1: u8, b2: u8, b3: u8, b4: u8, b5: u8, b6: u8, b7: u8) -> u64 {
    (b0 as int * 0x100_0000_0000_0000
        + b1 as int * 0x1_0000_0000_0000
        + b2 as int * 0x100_0000_0000
        + b3 as int * 0x1_0000_0000
        + b4 as int * 0x100_0000
        + b5 as int * 0x1_0000
        + b6 as int * 0x100
        + b7 as int) as u64
}

/// Parse one byte at position `i`.
pub open spec fn parse_u8(s: Seq<u8>, i: int) -> Result<(u8, int), DecodeError> {
    if 0 <= i && i + 1 <= s.len() {
        Ok((s[i], i + 1))
    } else {
        Err(DecodeError::TruncatedInput)
    }
}

/// Parse a two-byte big-endian integer at position `i`.
pub open spec fn parse_u16_be(s: Seq<u8>, i: int) -> Result<(u16, int), DecodeError> {
    if 0 <= i && i + 2 <= s.len() {
        Ok((be_u16(s[i], s[i + 1]), i + 2))
    } else {
        Err(DecodeError::TruncatedInput)
    }
}

/// Parse a four-byte big-endian integer at position `i`.
pub open spec fn parse_u32_be(s: Seq<u8>, i: int) -> Result<(u32, int), DecodeError> {
    if 0 <= i && i + 4 <= s.len() {
        Ok((be_u32(s[i], s[i + 1], s[i + 2], s[i + 3]), i + 4))
    } else {
        Err(DecodeError::TruncatedInput)
    }
}

/// Parse an eight-byte big-endian integer at position `i`.
pub open spec fn parse_u64_be(s: Seq<u8>, i: int) -> Result<(u64, int), DecodeError> {
    if 0 <= i && i + 8 <= s.len() {
        Ok(
            (
                be_u64(
                    s[i],
                    s[i + 1],
                    s[i + 2],
                    s[i + 3],
                    s[i + 4],
                    s[i + 5],
                    s[i + 6],
                    s[i + 7],
                ),
                i + 8,
            ),
        )
    } else {
        Err(DecodeError::TruncatedInput)
    }
}

/// Parse exactly `n` bytes at position `i`.
pub open spec fn parse_fixed_bytes(s: Seq<u8>, i: int, n: int) -> Result<
    (Seq<u8>, int),
    DecodeError,
> {
    if 0 <= i && 0 <= n && i + n <= s.len() {
        Ok((s.subrange(i, i + n), i + n))
    } else {
        Err(DecodeError::TruncatedInput)
    }
}

/// Parse a four-byte big-endian length followed by that many bytes. A
/// declared length larger than the bytes remaining is rejected outright,
/// before any allocation could be sized from it.
pub open spec fn parse_len_prefixed_bytes(s: Seq<u8>, i: int) -> Result<
    (Seq<u8>, int),
    DecodeError,
> {
    match parse_u32_be(s, i) {
        Ok((len, j)) => {
            if j + len <= s.len() {
                Ok((s.subrange(j, j + len), j + len))
            } else {
                Err(DecodeError::LengthOverflow)
            }
        },
        Err(e) => Err(e),
    }
}

/// Parse a length-prefixed byte run that must additionally be valid UTF-8;
/// the result is the decoded character sequence.
pub open spec fn parse_utf8_string(s: Seq<u8>, i: int) -> Result<(Seq<char>, int), DecodeError> {
    match parse_len_prefixed_bytes(s, i) {
        Ok((b, j)) => {
            if valid_utf8(b) {
                Ok((decode_utf8(b), j))
            } else {
                Err(DecodeError::InvalidText)
            }
        },
        Err(e) => Err(e),
    }
}

/// Relies on `String::from_utf8` from the standard library: it succeeds
/// exactly when the input bytes are a valid UTF-8 encoding, and then
/// returns the string holding the characters those bytes encode.
#[verifier::external_body]
fn string_from_utf8(bytes: Vec<u8>) -> (r: Option<String>)
    ensures
        r is Some <==> valid_utf8(bytes@),
        r matches Some(st) ==> st@ == decode_utf8(bytes@),
{
    match String::from_utf8(bytes) {
        Ok(st) => Some(st),
        Err(_) => None,
    }
}

/// A forward-only cursor over an immutable byte slice. Reads advance the
/// position and never rewind; a read past the end fails and leaves the
/// buffer untouched.
pub struct Reader<'a> {
    data: &'a [u8],
    pos: usize,
}

impl<'a> Reader<'a> {
    /// The whole underlying buffer.
    pub closed spec fn bytes(&self) -> Seq<u8> {
        self.data@
    }

    /// The current read position.
    pub closed spec fn pos(&self) -> int {
        self.pos as int
    }

    /// The position never runs past the end of the buffer.
    pub open spec fn wf(&self) -> bool {
        0 <= self.pos() <= self.bytes().len()
    }

    /// Start reading at the beginning of `data`.
    pub fn new(data: &'a [u8]) -> (r: Reader<'a>)
        ensures
            r.wf(),
            r.bytes() == data@,
            r.pos() == 0,
    {
        Reader { data, pos: 0 }
    }

    /// The current read position.
    pub fn position(&self) -> (p: usize)
        ensures
            p == self.pos(),
    {
        self.pos
    }

    /// The total length of the underlying buffer.
    pub fn total_len(&self) -> (n: usize)
        ensures
            n == self.bytes().len(),
    {
        self.data.len()
    }

    /// Read one byte.
    pub fn read_u8(&mut self) -> (r: Result<u8, DecodeError>)
        requires
            old(self).wf(),
        ensures
            final(self).wf(),
            final(self).bytes() == old(self).bytes(),
            match r {
                Ok(b) => parse_u8(final(self).bytes(), old(self).pos()) == Ok::<(u8, int), DecodeError>(
                    (b, final(self).pos()),
                ),
                Err(e) => parse_u8(final(self).bytes(), old(self).pos()) == Err::<(u8, int), DecodeError>(
                    e,
                ) && final(self).pos() == old(self).pos(),
            },
    {
        if self.data.len() - self.pos >= 1 {
            let b = *slice_index_get(self.data, self.pos);
            self.pos = self.pos + 1;
            Ok(b)
        } else {
            Err(DecodeError::TruncatedInput)
        }
    }

    /// Read a two-byte big-endian integer.
    pub fn read_u16_be(&mut self) -> (r: Result<u16, DecodeError>)
        requires
            old(self).wf(),
        ensures
            final(self).wf(),
            final(self).bytes() == old(self).bytes(),
            match r {
                Ok(x) => parse_u16_be(final(self).bytes(), old(self).pos()) == Ok::<
                    (u16, int),
                    DecodeError,
                >((x, final(self).pos())),
                Err(e) => parse_u16_be(final(self).bytes(), old(self).pos()) == Err::<
                    (u16, int),
                    DecodeError,
                >(e) && final(self).pos() == old(self).pos(),
            },
    {
        if self.data.len() - self.pos >= 2 {
            let b0 = *slice_index_get(self.data, self.pos);
            let b1 = *slice_index_get(self.data, self.pos + 1);
            self.pos = self.pos + 2;
            Ok((b0 as u16) * 0x100 + (b1 as u16))
        } else {
            Err(DecodeError::TruncatedInput)
        }
    }

    /// Read a four-byte big-endian integer.
    pub fn read_u32_be(&mut self) -> (r: Result<u32, DecodeError>)
        requires
            old(self).wf(),
        ensures
            final(self).wf(),
            final(self).bytes() == old(self).bytes(),
            match r {
                Ok(x) => parse_u32_be(final(self).bytes(), old(self).pos()) == Ok::<
                    (u32, int),
                    DecodeError,
                >((x, final(self).pos())),
                Err(e) => parse_u32_be(final(self).bytes(), old(self).pos()) == Err::<
                    (u32, int),
                    DecodeError,
                >(e) && final(self).pos() == old(self).pos(),
            },
    {
        if self.data.len() - self.pos >= 4 {
            let b0 = *slice_index_get(self.data, self.pos);
            let b1 = *slice_index_get(self.data, self.pos + 1);
            let b2 = *slice_index_get(self.data, self.pos + 2);
            let b3 = *slice_index_get(self.data, self.pos + 3);
            self.pos = self.pos + 4;
            Ok(
                (b0 as u32) * 0x100_0000 + (b1 as u32) * 0x1_0000 + (b2 as u32) * 0x100 + (
                b3 as u32),
            )
        } else {
            Err(DecodeError::TruncatedInput)
        }
    }

    /// Read an eight-byte big-endian integer.
    pub fn read_u64_be(&mut self) -> (r: Result<u64, DecodeError>)
        requires
            old(self).wf(),
        ensures
            final(self).wf(),
            final(self).bytes() == old(self).bytes(),
            match r {
                Ok(x) => parse_u64_be(final(self).bytes(), old(self).pos()) == Ok::<
                    (u64, int),
                    DecodeError,
                >((x, final(self).pos())),
                Err(e) => parse_u64_be(final(self).bytes(), old(self).pos()) == Err::<
                    (u64, int),
                    DecodeError,
                >(e) && final(self).pos() == old(self).pos(),
            },
    {
        if self.data.len() - self.pos >= 8 {
            let b0 = *slice_index_get(self.data, self.pos);
            let b1 = *slice_index_get(self.data, self.pos + 1);
            let b2 = *slice_index_get(self.data, self.pos + 2);
            let b3 = *slice_index_get(self.data, self.pos + 3);
            let b4 = *slice_index_get(self.data, self.pos + 4);
            let b5 = *slice_index_get(self.data, self.pos + 5);
            let b6 = *slice_index_get(self.data, self.pos + 6);
            let b7 = *slice_index_get(self.data, self.pos + 7);
            self.pos = self.pos + 8;
            Ok(
                (b0 as u64) * 0x100_0000_0000_0000 + (b1 as u64) * 0x1_0000_0000_0000 + (
                b2 as u64) * 0x100_0000_0000 + (b3 as u64) * 0x1_0000_0000 + (b4 as u64)
                    * 0x100_0000 + (b5 as u64) * 0x1_0000 + (b6 as u64) * 0x100 + (b7 as u64),
            )
        } else {
            Err(DecodeError::TruncatedInput)
        }
    }

    /// Read exactly `n` bytes into a vector.
    pub fn read_exact(&mut self, n: usize) -> (r: Result<Vec<u8>, DecodeError>)
        requires
            old(self).wf(),
        ensures
            final(self).wf(),
            final(self).bytes() == old(self).bytes(),
            match r {
                Ok(v) => parse_fixed_bytes(final(self).bytes(), old(self).pos(), n as int) == Ok::<
                    (Seq<u8>, int),
                    DecodeError,
                >((v@, final(self).pos())),
                Err(e) => parse_fixed_bytes(final(self).bytes(), old(self).pos(), n as int) == Err::<
                    (Seq<u8>, int),
                    DecodeError,
                >(e) && final(self).pos() == old(self).pos(),
            },
    {
        if self.data.len() - self.pos >= n {
            let mut out: Vec<u8> = Vec::new();
            let mut k: usize = 0;
            while k < n
                invariant
                    self.wf(),
                    k <= n,
                    self.bytes().len() - self.pos() >= n,
                    self.pos() + n <= usize::MAX,
                    out@ =~= self.bytes().subrange(self.pos(), self.pos() + k as int),
                decreases n - k,
            {
                out.push(*slice_index_get(self.data, self.pos + k));
                k = k + 1;
            }
            self.pos = self.pos + n;
            assert(out@ =~= self.bytes().subrange(old(self).pos(), old(self).pos() + n as int));
            Ok(out)
        } else {
            Err(DecodeError::TruncatedInput)
        }
    }

    /// Read exactly `N` bytes into a fixed-size array.
    pub fn read_array<const N: usize>(&mut self) -> (r: Result<[u8; N], DecodeError>)
        requires
            old(self).wf(),
        ensures
            final(self).wf(),
            final(self).bytes() == old(self).bytes(),
            match r {
                Ok(a) => parse_fixed_bytes(final(self).bytes(), old(self).pos(), N as int) == Ok::<
                    (Seq<u8>, int),
                    DecodeError,
                >((a@, final(self).pos())),
                Err(e) => parse_fixed_bytes(final(self).bytes(), old(self).pos(), N as int) == Err::<
                    (Seq<u8>, int),
                    DecodeError,
                >(e) && final(self).pos() == old(self).pos(),
            },
    {
        if self.data.len() - self.pos >= N {
            let mut a: [u8; N] = [0u8; N];
            let mut k: usize = 0;
            while k < N
                invariant
                    self.wf(),
                    k <= N,
                    self.bytes().len() - self.pos() >= N,
                    self.pos() + N <= usize::MAX,
                    forall|j: int| 0 <= j < k ==> a@[j] == self.bytes()[self.pos() + j],
                decreases N - k,
            {
                a[k] = *slice_index_get(self.data, self.pos + k);
                k = k + 1;
            }
            self.pos = self.pos + N;
            assert(a@ =~= self.bytes().subrange(old(self).pos(), old(self).pos() + N as int));
            Ok(a)
        } else {
            Err(DecodeError::TruncatedInput)
        }
    }

    /// Read a four-byte big-endian length followed by that many bytes. The
    /// declared length is checked against the bytes remaining before any
    /// allocation is sized from it.
    pub fn read_len_prefixed_bytes(&mut self) -> (r: Result<Vec<u8>, DecodeError>)
        requires
            old(self).wf(),
        ensures
            final(self).wf(),
            final(self).bytes() == old(self).bytes(),
            match r {
                Ok(v) => parse_len_prefixed_bytes(final(self).bytes(), old(self).pos()) == Ok::<
                    (Seq<u8>, int),
                    DecodeError,
                >((v@, final(self).pos())),
                Err(e) => parse_len_prefixed_bytes(final(self).bytes(), old(self).pos()) == Err::<
                    (Seq<u8>, int),
                    DecodeError,
                >(e),
            },
    {
        let len = match self.read_u32_be() {
            Ok(l) => l,
            Err(e) => {
                return Err(e);
            },
        };
        let len_us: usize = len as usize;
        if len_us <= self.data.len() - self.pos {
            self.read_exact(len_us)
        } else {
            Err(DecodeError::LengthOverflow)
        }
    }

    /// Read a length-prefixed UTF-8 string field.
    pub fn read_string(&mut self) -> (r: Result<String, DecodeError>)
        requires
            old(self).wf(),
        ensures
            final(self).wf(),
            final(self).bytes() == old(self).bytes(),
            match r {
                Ok(st) => parse_utf8_string(final(self).bytes(), old(self).pos()) == Ok::<
                    (Seq<char>, int),
                    DecodeError,
                >((st@, final(self).pos())),
                Err(e) => parse_utf8_string(final(self).bytes(), old(self).pos()) == Err::<
                    (Seq<char>, int),
                    DecodeError,
                >(e),
            },
    {
        let b = match self.read_len_prefixed_bytes() {
            Ok(b) => b,
            Err(e) => {
                return Err(e);
            },
        };
        match string_from_utf8(b) {
            Some(st) => Ok(st),
            None => Err(DecodeError::InvalidText),
        }
    }
}

} // verus!
