//! The canonical binary encoding of the wire messages.
//!
//! One message per datagram; the datagram boundary is the frame, so no
//! length prefix precedes a message.  A message is its variant's tag as a
//! 32-bit little-endian integer followed by the fields in declaration order:
//! integers little-endian in their width, a `bool` as one byte (0 or 1), a
//! byte string as a 64-bit length followed by the bytes, a sequence of rows
//! as a 64-bit count followed by the rows.  A message decodes successfully
//! iff the bytes are exactly one such encoding — trailing bytes, unknown
//! tags and bytes other than 0 or 1 for a `bool` are refused, which makes
//! the encoding canonical: equal logical values have equal bytes, and
//! decoding inverts encoding exactly.  Those two laws are proved at the end
//! of the module for each message type.

use vstd::prelude::*;

use crate::proto::{
    Request, RequestV, Response, ResponseV, SessionId, SessionInfo, SessionInfoV, SessionRequest,
    SessionResponse,
};

verus! {

/// A datagram that is not exactly one canonical message encoding.
#[derive(Copy, Clone, Debug, PartialEq, Eq, Structural)]
pub struct DecodeError;

/// The little-endian bytes of a 32-bit integer.
pub open spec fn spec_le32(v: u32) -> Seq<u8> {
    seq![
        (v % 256) as u8,
        ((v / 256) % 256) as u8,
        ((v / 65536) % 256) as u8,
        ((v / 16777216) % 256) as u8,
    ]
}

/// The integer read from 4 little-endian bytes.
pub open spec fn le32_val(b: Seq<u8>) -> int
    recommends
        b.len() == 4,
{
    b[0] + 256 * b[1] + 65536 * b[2] + 16777216 * b[3]
}

/// The little-endian bytes of a 64-bit integer.
pub open spec fn spec_le64(v: u64) -> Seq<u8> {
    seq![
        (v % 256) as u8,
        ((v / 256) % 256) as u8,
        ((v / 65536) % 256) as u8,
        ((v / 16777216) % 256) as u8,
        ((v / 4294967296) % 256) as u8,
        ((v / 1099511627776) % 256) as u8,
        ((v / 281474976710656) % 256) as u8,
        ((v / 72057594037927936) % 256) as u8,
    ]
}

/// The integer read from 8 little-endian bytes.
pub open spec fn le64_val(b: Seq<u8>) -> int
    recommends
        b.len() == 8,
{
    b[0] + 256 * b[1] + 65536 * b[2] + 16777216 * b[3] + 4294967296 * b[4] + 1099511627776 * b[5]
        + 281474976710656 * b[6] + 72057594037927936 * b[7]
}

/// The one byte of a `bool`.
pub open spec fn spec_bool(b: bool) -> Seq<u8> {
    seq![
        if b {
            1u8
        } else {
            0u8
        },
    ]
}

/// A length-prefixed byte string.
pub open spec fn spec_len_bytes(b: Seq<u8>) -> Seq<u8> {
    spec_le64(b.len() as u64) + b
}

/// Reading back the little-endian bytes of a 32-bit integer gives the
/// integer.
pub proof fn lemma_le32_roundtrip(v: u32)
    ensures
        le32_val(spec_le32(v)) == v,
{
    assert(v % 256 + 256 * ((v / 256) % 256) + 65536 * ((v / 65536) % 256) + 16777216 * ((v
        / 16777216) % 256) == v) by (bit_vector);
}

/// Any 4 bytes are the little-endian encoding of the integer they spell.
pub proof fn lemma_le32_canonical(b: Seq<u8>)
    requires
        b.len() == 4,
    ensures
        0 <= le32_val(b) < 0x1_0000_0000,
        spec_le32(le32_val(b) as u32) == b,
{
    let b0 = b[0];
    let b1 = b[1];
    let b2 = b[2];
    let b3 = b[3];
    let v: u32 = (b0 + 256 * b1 + 65536 * b2 + 16777216 * b3) as u32;
    assert(v % 256 == b0 && (v / 256) % 256 == b1 && (v / 65536) % 256 == b2 && (v / 16777216)
        % 256 == b3) by (bit_vector)
        requires
            v == b0 as u32 + 256 * (b1 as u32) + 65536 * (b2 as u32) + 16777216 * (b3 as u32),
    ;
    assert(spec_le32(v) =~= b);
}

/// Reading back the little-endian bytes of a 64-bit integer gives the
/// integer.
pub proof fn lemma_le64_roundtrip(v: u64)
    ensures
        le64_val(spec_le64(v)) == v,
{
    assert(v % 256 + 256 * ((v / 256) % 256) + 65536 * ((v / 65536) % 256) + 16777216 * ((v
        / 16777216) % 256) + 4294967296 * ((v / 4294967296) % 256) + 1099511627776 * ((v
        / 1099511627776) % 256) + 281474976710656 * ((v / 281474976710656) % 256)
        + 72057594037927936 * ((v / 72057594037927936) % 256) == v) by (bit_vector);
}

/// Any 8 bytes are the little-endian encoding of the integer they spell.
pub proof fn lemma_le64_canonical(b: Seq<u8>)
    requires
        b.len() == 8,
    ensures
        0 <= le64_val(b) < 0x1_0000_0000_0000_0000,
        spec_le64(le64_val(b) as u64) == b,
{
    let b0 = b[0];
    let b1 = b[1];
    let b2 = b[2];
    let b3 = b[3];
    let b4 = b[4];
    let b5 = b[5];
    let b6 = b[6];
    let b7 = b[7];
    let v: u64 = (b0 + 256 * b1 + 65536 * b2 + 16777216 * b3 + 4294967296 * b4 + 1099511627776
        * b5 + 281474976710656 * b6 + 72057594037927936 * b7) as u64;
    assert(v % 256 == b0 && (v / 256) % 256 == b1 && (v / 65536) % 256 == b2 && (v / 16777216)
        % 256 == b3 && (v / 4294967296) % 256 == b4 && (v / 1099511627776) % 256 == b5 && (v
        / 281474976710656) % 256 == b6 && (v / 72057594037927936) % 256 == b7) by (bit_vector)
        requires
            v == b0 as u64 + 256 * (b1 as u64) + 65536 * (b2 as u64) + 16777216 * (b3 as u64)
                + 4294967296 * (b4 as u64) + 1099511627776 * (b5 as u64) + 281474976710656 * (
            b6 as u64) + 72057594037927936 * (b7 as u64),
    ;
    assert(spec_le64(v) =~= b);
}

/// Append the little-endian bytes of a 64-bit integer.
fn write_u64_le(out: &mut Vec<u8>, v: u64)
    ensures
        final(out)@ == old(out)@ + spec_le64(v),
{
    out.push((v % 256) as u8);
    out.push(((v / 256) % 256) as u8);
    out.push(((v / 65536) % 256) as u8);
    out.push(((v / 16777216) % 256) as u8);
    out.push(((v / 4294967296) % 256) as u8);
    out.push(((v / 1099511627776) % 256) as u8);
    out.push(((v / 281474976710656) % 256) as u8);
    out.push(((v / 72057594037927936) % 256) as u8);
    proof {
        assert(out@ =~= old(out)@ + spec_le64(v));
    }
}

/// Append the little-endian bytes of a 32-bit tag.
fn write_u32_le(out: &mut Vec<u8>, v: u32)
    ensures
        final(out)@ == old(out)@ + spec_le32(v),
{
    out.push((v % 256) as u8);
    out.push(((v / 256) % 256) as u8);
    out.push(((v / 65536) % 256) as u8);
    out.push(((v / 16777216) % 256) as u8);
    proof {
        assert(out@ =~= old(out)@ + spec_le32(v));
    }
}

/// Append one `bool` byte.
fn write_bool(out: &mut Vec<u8>, b: bool)
    ensures
        final(out)@ == old(out)@ + spec_bool(b),
{
    out.push(
        if b {
            1u8
        } else {
            0u8
        },
    );
    proof {
        assert(out@ =~= old(out)@ + spec_bool(b));
    }
}

/// Append a length-prefixed byte string.
fn write_len_bytes(out: &mut Vec<u8>, b: &[u8])
    ensures
        final(out)@ == old(out)@ + spec_len_bytes(b@),
{
    write_u64_le(out, b.len() as u64);
    let mut i: usize = 0;
    while i < b.len()
        invariant
            i <= b@.len(),
            out@ == old(out)@ + spec_le64(b@.len() as u64) + b@.subrange(0, i as int),
        decreases b@.len() - i,
    {
        out.push(b[i]);
        proof {
            assert(out@ =~= old(out)@ + spec_le64(b@.len() as u64) + b@.subrange(0, i + 1));
        }
        i += 1;
    }
    proof {
        assert(b@.subrange(0, b@.len() as int) =~= b@);
        assert(out@ =~= old(out)@ + spec_len_bytes(b@));
    }
}

/// Read the 32-bit integer at `off`.
fn read_u32_le(b: &[u8], off: usize) -> (v: u32)
    requires
        off + 4 <= b@.len(),
    ensures
        v == le32_val(b@.subrange(off as int, off + 4)),
{
    let x0 = b[off] as u32;
    let x1 = b[off + 1] as u32;
    let x2 = b[off + 2] as u32;
    let x3 = b[off + 3] as u32;
    x0 + 256 * x1 + 65536 * x2 + 16777216 * x3
}

/// Read the 64-bit integer at `off`.
fn read_u64_le(b: &[u8], off: usize) -> (v: u64)
    requires
        off + 8 <= b@.len(),
    ensures
        v == le64_val(b@.subrange(off as int, off + 8)),
{
    let x0 = b[off] as u64;
    let x1 = b[off + 1] as u64;
    let x2 = b[off + 2] as u64;
    let x3 = b[off + 3] as u64;
    let x4 = b[off + 4] as u64;
    let x5 = b[off + 5] as u64;
    let x6 = b[off + 6] as u64;
    let x7 = b[off + 7] as u64;
    x0 + 256 * x1 + 65536 * x2 + 16777216 * x3 + 4294967296 * x4 + 1099511627776 * x5
        + 281474976710656 * x6 + 72057594037927936 * x7
}

/// Read the `bool` byte at `off`: only 0 and 1 are valid.
fn read_bool(b: &[u8], off: usize) -> (r: Result<bool, DecodeError>)
    requires
        off < b@.len(),
    ensures
        match r {
            Ok(v) => v == (b@[off as int] == 1) && (b@[off as int] == 0 || b@[off as int] == 1),
            Err(_) => b@[off as int] != 0 && b@[off as int] != 1,
        },
{
    if b[off] == 0 {
        Ok(false)
    } else if b[off] == 1 {
        Ok(true)
    } else {
        Err(DecodeError)
    }
}

/// Copy the bytes of `b` from `from` to the end into a fresh vector.
fn tail_to_vec(b: &[u8], from: usize) -> (out: Vec<u8>)
    requires
        from <= b@.len(),
    ensures
        out@ == b@.subrange(from as int, b@.len() as int),
{
    let upto = b.len();
    let sub = vstd::slice::slice_subrange(b, from, upto);
    vstd::slice::slice_to_vec(sub)
}

/// Whether an encoded message fits the per-datagram scratch buffer: a send
/// fails exactly when it does not.
pub fn fits_frame(buf: &Vec<u8>) -> (r: bool)
    ensures
        r == (buf@.len() <= crate::MAX_MESSAGE as int),
{
    buf.len() <= crate::MAX_MESSAGE
}

/// A request value whose byte strings fit their 64-bit length prefix.  Every
/// value held in a `Request` satisfies this.
pub open spec fn wf_request(r: RequestV) -> bool {
    match r {
        RequestV::AttachSessionByAlias(alias) => alias.len() < 0x1_0000_0000_0000_0000,
        RequestV::KillSessionByAlias { alias, .. } => alias.len() < 0x1_0000_0000_0000_0000,
        RequestV::AliasSession { alias, .. } => alias.len() < 0x1_0000_0000_0000_0000,
        _ => true,
    }
}

/// The canonical bytes of a control request: the variant tag, then the
/// fields in declaration order.
pub open spec fn spec_encode_request(r: RequestV) -> Seq<u8> {
    match r {
        RequestV::NewSession => spec_le32(0),
        RequestV::AttachSession(sid) => spec_le32(1) + spec_le64(sid.0),
        RequestV::AttachSessionByAlias(alias) => spec_le32(2) + spec_len_bytes(alias),
        RequestV::KillSession { sid, force } => spec_le32(3) + spec_le64(sid.0) + spec_bool(force),
        RequestV::KillSessionByAlias { alias, force } => spec_le32(4) + spec_len_bytes(alias)
            + spec_bool(force),
        RequestV::AliasSession { sid, alias } => spec_le32(5) + spec_le64(sid.0) + spec_len_bytes(
            alias,
        ),
        RequestV::ListSessions => spec_le32(6),
        RequestV::StopServer { force } => spec_le32(7) + spec_bool(force),
    }
}

/// The control request spelled by exactly these bytes, if any: unknown tags,
/// missing or trailing bytes, length prefixes that disagree with the frame,
/// and `bool` bytes other than 0 and 1 spell none.
pub open spec fn spec_decode_request(b: Seq<u8>) -> Option<RequestV> {
    if b.len() < 4 {
        None
    } else {
        let tag = le32_val(b.subrange(0, 4));
        let rest = b.skip(4);
        if tag == 0 {
            if rest.len() == 0 {
                Some(RequestV::NewSession)
            } else {
                None
            }
        } else if tag == 1 {
            if rest.len() == 8 {
                Some(RequestV::AttachSession(SessionId(le64_val(rest) as u64)))
            } else {
                None
            }
        } else if tag == 2 {
            if rest.len() >= 8 && le64_val(rest.subrange(0, 8)) == rest.len() - 8 {
                Some(RequestV::AttachSessionByAlias(rest.skip(8)))
            } else {
                None
            }
        } else if tag == 3 {
            if rest.len() == 9 && (rest[8] == 0 || rest[8] == 1) {
                Some(
                    RequestV::KillSession {
                        sid: SessionId(le64_val(rest.subrange(0, 8)) as u64),
                        force: rest[8] == 1,
                    },
                )
            } else {
                None
            }
        } else if tag == 4 {
            if rest.len() >= 9 && le64_val(rest.subrange(0, 8)) == rest.len() - 9 && (rest.last()
                == 0 || rest.last() == 1) {
                Some(
                    RequestV::KillSessionByAlias {
                        alias: rest.subrange(8, rest.len() - 1),
                        force: rest.last() == 1,
                    },
                )
            } else {
                None
            }
        } else if tag == 5 {
            if rest.len() >= 16 && le64_val(rest.subrange(8, 16)) == rest.len() - 16 {
                Some(
                    RequestV::AliasSession {
                        sid: SessionId(le64_val(rest.subrange(0, 8)) as u64),
                        alias: rest.skip(16),
                    },
                )
            } else {
                None
            }
        } else if tag == 6 {
            if rest.len() == 0 {
                Some(RequestV::ListSessions)
            } else {
                None
            }
        } else if tag == 7 {
            if rest.len() == 1 && (rest[0] == 0 || rest[0] == 1) {
                Some(RequestV::StopServer { force: rest[0] == 1 })
            } else {
                None
            }
        } else {
            None
        }
    }
}

/// Serialize a control request into its canonical bytes.
pub fn encode_request(req: &Request) -> (out: Vec<u8>)
    ensures
        out@ == spec_encode_request(req@),
{
    let mut out: Vec<u8> = Vec::new();
    match req {
        Request::NewSession => {
            write_u32_le(&mut out, 0);
        },
        Request::AttachSession(sid) => {
            write_u32_le(&mut out, 1);
            write_u64_le(&mut out, sid.0);
        },
        Request::AttachSessionByAlias(alias) => {
            write_u32_le(&mut out, 2);
            write_len_bytes(&mut out, alias.as_slice());
        },
        Request::KillSession { sid, force } => {
            write_u32_le(&mut out, 3);
            write_u64_le(&mut out, sid.0);
            write_bool(&mut out, *force);
        },
        Request::KillSessionByAlias { alias, force } => {
            write_u32_le(&mut out, 4);
            write_len_bytes(&mut out, alias.as_slice());
            write_bool(&mut out, *force);
        },
        Request::AliasSession { sid, alias } => {
            write_u32_le(&mut out, 5);
            write_u64_le(&mut out, sid.0);
            write_len_bytes(&mut out, alias.as_slice());
        },
        Request::ListSessions => {
            write_u32_le(&mut out, 6);
        },
        Request::StopServer { force } => {
            write_u32_le(&mut out, 7);
            write_bool(&mut out, *force);
        },
    }
    proof {
        assert(out@ =~= spec_encode_request(req@));
    }
    out
}

/// Deserialize a control request: succeeds iff the bytes are exactly one
/// canonical request encoding, and then yields the request they spell.
#[verifier::rlimit(60)]
pub fn decode_request(b: &[u8]) -> (r: Result<Request, DecodeError>)
    ensures
        match r {
            Ok(m) => spec_decode_request(b@) == Some(m@),
            Err(_) => spec_decode_request(b@) is None,
        },
{
    if b.len() < 4 {
        return Err(DecodeError);
    }
    let ghost rest = b@.skip(4);
    let tag = read_u32_le(b, 0);
    if tag == 0 {
        if b.len() == 4 {
            Ok(Request::NewSession)
        } else {
            Err(DecodeError)
        }
    } else if tag == 1 {
        if b.len() == 12 {
            proof {
                assert(b@.subrange(4, 12) =~= rest);
            }
            let sid = read_u64_le(b, 4);
            Ok(Request::AttachSession(SessionId(sid)))
        } else {
            Err(DecodeError)
        }
    } else if tag == 2 {
        if b.len() < 12 {
            return Err(DecodeError);
        }
        proof {
            assert(b@.subrange(4, 12) =~= rest.subrange(0, 8));
        }
        let n = read_u64_le(b, 4);
        if n == (b.len() - 12) as u64 {
            let alias = tail_to_vec(b, 12);
            proof {
                assert(alias@ =~= rest.skip(8));
            }
            Ok(Request::AttachSessionByAlias(alias))
        } else {
            Err(DecodeError)
        }
    } else if tag == 3 {
        if b.len() != 13 {
            return Err(DecodeError);
        }
        proof {
            assert(b@.subrange(4, 12) =~= rest.subrange(0, 8));
            assert(b@[12] == rest[8]);
        }
        let sid = read_u64_le(b, 4);
        match read_bool(b, 12) {
            Ok(force) => Ok(Request::KillSession { sid: SessionId(sid), force }),
            Err(e) => Err(e),
        }
    } else if tag == 4 {
        if b.len() < 13 {
            return Err(DecodeError);
        }
        proof {
            assert(b@.subrange(4, 12) =~= rest.subrange(0, 8));
            assert(b@[b@.len() - 1] == rest.last());
        }
        let n = read_u64_le(b, 4);
        if n != (b.len() - 13) as u64 {
            return Err(DecodeError);
        }
        match read_bool(b, b.len() - 1) {
            Ok(force) => {
                let sub = vstd::slice::slice_subrange(b, 12, b.len() - 1);
                let alias = vstd::slice::slice_to_vec(sub);
                proof {
                    assert(alias@ =~= rest.subrange(8, rest.len() - 1));
                }
                Ok(Request::KillSessionByAlias { alias, force })
            },
            Err(e) => Err(e),
        }
    } else if tag == 5 {
        if b.len() < 20 {
            return Err(DecodeError);
        }
        proof {
            assert(b@.subrange(4, 12) =~= rest.subrange(0, 8));
            assert(b@.subrange(12, 20) =~= rest.subrange(8, 16));
        }
        let sid = read_u64_le(b, 4);
        let n = read_u64_le(b, 12);
        if n == (b.len() - 20) as u64 {
            let alias = tail_to_vec(b, 20);
            proof {
                assert(alias@ =~= rest.skip(16));
            }
            Ok(Request::AliasSession { sid: SessionId(sid), alias })
        } else {
            Err(DecodeError)
        }
    } else if tag == 6 {
        if b.len() == 4 {
            Ok(Request::ListSessions)
        } else {
            Err(DecodeError)
        }
    } else if tag == 7 {
        if b.len() != 5 {
            return Err(DecodeError);
        }
        proof {
            assert(b@[4] == rest[0]);
        }
        match read_bool(b, 4) {
            Ok(force) => Ok(Request::StopServer { force }),
            Err(e) => Err(e),
        }
    } else {
        Err(DecodeError)
    }
}

/// Deserializing the canonical bytes of any control request reconstructs the
/// logical value: the encoding loses nothing.
#[verifier::rlimit(100)]
pub proof fn lemma_request_roundtrip(r: RequestV)
    requires
        wf_request(r),
    ensures
        spec_decode_request(spec_encode_request(r)) == Some(r),
{
    let e = spec_encode_request(r);
    match r {
        RequestV::NewSession => {
            assert(e.subrange(0, 4) =~= spec_le32(0));
            lemma_le32_roundtrip(0);
            assert(e.skip(4) =~= Seq::<u8>::empty());
        },
        RequestV::AttachSession(sid) => {
            assert(e.subrange(0, 4) =~= spec_le32(1));
            lemma_le32_roundtrip(1);
            assert(e.skip(4) =~= spec_le64(sid.0));
            lemma_le64_roundtrip(sid.0);
        },
        RequestV::AttachSessionByAlias(alias) => {
            assert(e.subrange(0, 4) =~= spec_le32(2));
            lemma_le32_roundtrip(2);
            let rest = e.skip(4);
            assert(rest =~= spec_le64(alias.len() as u64) + alias);
            assert(rest.subrange(0, 8) =~= spec_le64(alias.len() as u64));
            lemma_le64_roundtrip(alias.len() as u64);
            assert(rest.skip(8) =~= alias);
        },
        RequestV::KillSession { sid, force } => {
            assert(e.subrange(0, 4) =~= spec_le32(3));
            lemma_le32_roundtrip(3);
            let rest = e.skip(4);
            assert(rest =~= spec_le64(sid.0) + spec_bool(force));
            assert(rest.subrange(0, 8) =~= spec_le64(sid.0));
            lemma_le64_roundtrip(sid.0);
            lemma_le32_roundtrip(3);
        },
        RequestV::KillSessionByAlias { alias, force } => {
            assert(e.subrange(0, 4) =~= spec_le32(4));
            lemma_le32_roundtrip(4);
            let rest = e.skip(4);
            assert(rest =~= spec_le64(alias.len() as u64) + alias + spec_bool(force));
            assert(rest.subrange(0, 8) =~= spec_le64(alias.len() as u64));
            lemma_le64_roundtrip(alias.len() as u64);
            assert(rest.subrange(8, rest.len() - 1) =~= alias);
        },
        RequestV::AliasSession { sid, alias } => {
            assert(e.subrange(0, 4) =~= spec_le32(5));
            lemma_le32_roundtrip(5);
            let rest = e.skip(4);
            assert(rest =~= spec_le64(sid.0) + spec_le64(alias.len() as u64) + alias);
            assert(rest.subrange(0, 8) =~= spec_le64(sid.0));
            assert(rest.subrange(8, 16) =~= spec_le64(alias.len() as u64));
            lemma_le64_roundtrip(sid.0);
            lemma_le64_roundtrip(alias.len() as u64);
            assert(rest.skip(16) =~= alias);
        },
        RequestV::ListSessions => {
            assert(e.subrange(0, 4) =~= spec_le32(6));
            lemma_le32_roundtrip(6);
            assert(e.skip(4) =~= Seq::<u8>::empty());
        },
        RequestV::StopServer { force } => {
            assert(e.subrange(0, 4) =~= spec_le32(7));
            lemma_le32_roundtrip(7);
            assert(e.skip(4) =~= spec_bool(force));
        },
    }
}

/// The encoding is canonical: any bytes that decode to a request are exactly
/// that request's encoding.  With the round trip above, equal logical values
/// have equal bytes and different bytes spell different values.
pub proof fn lemma_request_canonical(b: Seq<u8>)
    requires
        spec_decode_request(b) is Some,
    ensures
        wf_request(spec_decode_request(b).unwrap()),
        spec_encode_request(spec_decode_request(b).unwrap()) == b,
{
    let tag = le32_val(b.subrange(0, 4));
    let rest = b.skip(4);
    lemma_le32_canonical(b.subrange(0, 4));
    let r = spec_decode_request(b).unwrap();
    if tag == 0 {
        assert(spec_encode_request(r) =~= b);
    } else if tag == 1 {
        lemma_le64_canonical(rest);
        assert(spec_encode_request(r) =~= b);
    } else if tag == 2 {
        lemma_le64_canonical(rest.subrange(0, 8));
        assert(spec_le64((rest.len() - 8) as u64) == rest.subrange(0, 8));
        assert(spec_encode_request(r) =~= b);
    } else if tag == 3 {
        lemma_le64_canonical(rest.subrange(0, 8));
        assert(spec_bool(rest[8] == 1) =~= seq![rest[8]]);
        assert(spec_encode_request(r) =~= b);
    } else if tag == 4 {
        lemma_le64_canonical(rest.subrange(0, 8));
        assert(spec_le64((rest.len() - 9) as u64) == rest.subrange(0, 8));
        assert(spec_bool(rest.last() == 1) =~= seq![rest.last()]);
        assert(spec_encode_request(r) =~= b);
    } else if tag == 5 {
        lemma_le64_canonical(rest.subrange(0, 8));
        lemma_le64_canonical(rest.subrange(8, 16));
        assert(spec_le64((rest.len() - 16) as u64) == rest.subrange(8, 16));
        assert(spec_encode_request(r) =~= b);
    } else if tag == 6 {
        assert(spec_encode_request(r) =~= b);
    } else {
        assert(tag == 7);
        assert(spec_bool(rest[0] == 1) =~= seq![rest[0]]);
        assert(spec_encode_request(r) =~= b);
    }
}

/// A list row whose alias fits its 64-bit length prefix.
pub open spec fn wf_row(r: SessionInfoV) -> bool {
    r.alias.len() < 0x1_0000_0000_0000_0000
}

/// A response value whose sequences fit their 64-bit prefixes.  Every value
/// held in a `Response` satisfies this.
pub open spec fn wf_response(r: ResponseV) -> bool {
    match r {
        ResponseV::ListSessions(rows) => rows.len() < 0x1_0000_0000_0000_0000 && forall|i: int|
            0 <= i < rows.len() ==> wf_row(#[trigger] rows[i]),
        _ => true,
    }
}

/// The canonical bytes of one list row: sid, timestamp, alias.
pub open spec fn spec_encode_row(r: SessionInfoV) -> Seq<u8> {
    spec_le64(r.sid.0) + spec_le64(r.timestamp) + spec_len_bytes(r.alias)
}

/// The canonical bytes of the rows, in order.
pub open spec fn spec_encode_rows(rows: Seq<SessionInfoV>) -> Seq<u8>
    decreases rows.len(),
{
    if rows.len() == 0 {
        Seq::empty()
    } else {
        spec_encode_row(rows[0]) + spec_encode_rows(rows.skip(1))
    }
}

/// The `n` rows spelled by exactly these bytes, if they spell any.
pub open spec fn spec_decode_rows(b: Seq<u8>, n: nat) -> Option<Seq<SessionInfoV>>
    decreases n,
{
    if n == 0 {
        if b.len() == 0 {
            Some(Seq::empty())
        } else {
            None
        }
    } else if b.len() < 24 {
        None
    } else {
        let alen = le64_val(b.subrange(16, 24));
        if b.len() < 24 + alen {
            None
        } else {
            let row = SessionInfoV {
                sid: SessionId(le64_val(b.subrange(0, 8)) as u64),
                timestamp: le64_val(b.subrange(8, 16)) as u64,
                alias: b.subrange(24, 24 + alen),
            };
            match spec_decode_rows(b.skip(24 + alen), (n - 1) as nat) {
                Some(rest) => Some(seq![row] + rest),
                None => None,
            }
        }
    }
}

/// The canonical bytes of a control response.
pub open spec fn spec_encode_response(r: ResponseV) -> Seq<u8> {
    match r {
        ResponseV::NewSession(sid) => spec_le32(0) + spec_le64(sid.0),
        ResponseV::ListSessions(rows) => spec_le32(1) + spec_le64(rows.len() as u64)
            + spec_encode_rows(rows),
        ResponseV::Okay => spec_le32(2),
        ResponseV::Error => spec_le32(3),
    }
}

/// The control response spelled by exactly these bytes, if any.
pub open spec fn spec_decode_response(b: Seq<u8>) -> Option<ResponseV> {
    if b.len() < 4 {
        None
    } else {
        let tag = le32_val(b.subrange(0, 4));
        let rest = b.skip(4);
        if tag == 0 {
            if rest.len() == 8 {
                Some(ResponseV::NewSession(SessionId(le64_val(rest) as u64)))
            } else {
                None
            }
        } else if tag == 1 {
            if rest.len() >= 8 {
                match spec_decode_rows(rest.skip(8), le64_val(rest.subrange(0, 8)) as nat) {
                    Some(rows) => Some(ResponseV::ListSessions(rows)),
                    None => None,
                }
            } else {
                None
            }
        } else if tag == 2 {
            if rest.len() == 0 {
                Some(ResponseV::Okay)
            } else {
                None
            }
        } else if tag == 3 {
            if rest.len() == 0 {
                Some(ResponseV::Error)
            } else {
                None
            }
        } else {
            None
        }
    }
}

/// Row encodings concatenate: encoding two runs of rows one after the other
/// encodes their concatenation.
pub proof fn lemma_encode_rows_append(s1: Seq<SessionInfoV>, s2: Seq<SessionInfoV>)
    ensures
        spec_encode_rows(s1 + s2) == spec_encode_rows(s1) + spec_encode_rows(s2),
    decreases s1.len(),
{
    if s1.len() == 0 {
        assert(s1 + s2 =~= s2);
        assert(spec_encode_rows(s1) + spec_encode_rows(s2) =~= spec_encode_rows(s2));
    } else {
        assert((s1 + s2).skip(1) =~= s1.skip(1) + s2);
        lemma_encode_rows_append(s1.skip(1), s2);
        assert(spec_encode_rows(s1 + s2) =~= spec_encode_rows(s1) + spec_encode_rows(s2));
    }
}

/// Encoding one more row appends that row's bytes.
#[verifier::rlimit(100)]
pub proof fn lemma_encode_rows_snoc(s: Seq<SessionInfoV>, i: int)
    requires
        0 <= i < s.len(),
    ensures
        spec_encode_rows(s.take(i + 1)) == spec_encode_rows(s.take(i)) + spec_encode_row(s[i]),
{
    assert(s.take(i + 1) =~= s.take(i) + seq![s[i]]);
    lemma_encode_rows_append(s.take(i), seq![s[i]]);
    assert(seq![s[i]].skip(1) =~= Seq::<SessionInfoV>::empty());
    assert(spec_encode_rows(seq![s[i]]) == spec_encode_row(s[i]) + spec_encode_rows(
        Seq::<SessionInfoV>::empty(),
    ));
    assert(spec_encode_row(s[i]) + Seq::<u8>::empty() =~= spec_encode_row(s[i]));
}

/// Deserializing the canonical bytes of any run of rows reconstructs it.
#[verifier::rlimit(100)]
pub proof fn lemma_rows_roundtrip(rows: Seq<SessionInfoV>)
    requires
        forall|i: int| 0 <= i < rows.len() ==> wf_row(#[trigger] rows[i]),
    ensures
        spec_decode_rows(spec_encode_rows(rows), rows.len()) == Some(rows),
    decreases rows.len(),
{
    if rows.len() == 0 {
    } else {
        let e = spec_encode_rows(rows);
        let r0 = rows[0];
        let alen = r0.alias.len() as int;
        assert(e =~= spec_le64(r0.sid.0) + spec_le64(r0.timestamp) + spec_le64(alen as u64)
            + r0.alias + spec_encode_rows(rows.skip(1)));
        assert(e.subrange(0, 8) =~= spec_le64(r0.sid.0));
        assert(e.subrange(8, 16) =~= spec_le64(r0.timestamp));
        assert(e.subrange(16, 24) =~= spec_le64(alen as u64));
        lemma_le64_roundtrip(r0.sid.0);
        lemma_le64_roundtrip(r0.timestamp);
        lemma_le64_roundtrip(alen as u64);
        assert(e.subrange(24, 24 + alen) =~= r0.alias);
        assert(e.skip(24 + alen) =~= spec_encode_rows(rows.skip(1)));
        lemma_rows_roundtrip(rows.skip(1));
        let row = SessionInfoV {
            sid: SessionId(le64_val(e.subrange(0, 8)) as u64),
            timestamp: le64_val(e.subrange(8, 16)) as u64,
            alias: e.subrange(24, 24 + alen),
        };
        assert(seq![row] + rows.skip(1) =~= rows);
    }
}

/// The first row a decode reads back encodes to exactly the bytes it was
/// read from.
#[verifier::rlimit(100)]
proof fn lemma_first_row_canonical(b: Seq<u8>, alen: int)
    requires
        b.len() >= 24,
        alen == le64_val(b.subrange(16, 24)),
        0 <= alen,
        b.len() >= 24 + alen,
    ensures
        spec_encode_row(
            SessionInfoV {
                sid: SessionId(le64_val(b.subrange(0, 8)) as u64),
                timestamp: le64_val(b.subrange(8, 16)) as u64,
                alias: b.subrange(24, 24 + alen),
            },
        ) == b.subrange(0, 24 + alen),
{
    lemma_le64_canonical(b.subrange(0, 8));
    lemma_le64_canonical(b.subrange(8, 16));
    lemma_le64_canonical(b.subrange(16, 24));
    let row = SessionInfoV {
        sid: SessionId(le64_val(b.subrange(0, 8)) as u64),
        timestamp: le64_val(b.subrange(8, 16)) as u64,
        alias: b.subrange(24, 24 + alen),
    };
    assert(row.alias.len() == alen);
    assert(spec_le64(row.sid.0) == b.subrange(0, 8));
    assert(spec_le64(row.timestamp) == b.subrange(8, 16));
    assert(spec_le64(row.alias.len() as u64) == b.subrange(16, 24));
    assert(spec_encode_row(row) =~= b.subrange(0, 24 + alen));
}

/// Any bytes that decode as `n` rows are exactly those rows' encoding, and
/// there are `n` of them.
#[verifier::rlimit(100)]
pub proof fn lemma_rows_canonical(b: Seq<u8>, n: nat)
    requires
        spec_decode_rows(b, n) is Some,
    ensures
        ({
            let rows = spec_decode_rows(b, n).unwrap();
            &&& rows.len() == n
            &&& forall|i: int| 0 <= i < rows.len() ==> wf_row(#[trigger] rows[i])
            &&& spec_encode_rows(rows) == b
        }),
    decreases n,
{
    let rows = spec_decode_rows(b, n).unwrap();
    if n == 0 {
        assert(spec_encode_rows(rows) =~= b);
    } else {
        let alen = le64_val(b.subrange(16, 24));
        lemma_le64_canonical(b.subrange(16, 24));
        lemma_rows_canonical(b.skip(24 + alen), (n - 1) as nat);
        let rest = spec_decode_rows(b.skip(24 + alen), (n - 1) as nat).unwrap();
        assert(rows.skip(1) =~= rest);
        let row = rows[0];
        lemma_first_row_canonical(b, alen);
        assert(spec_encode_row(row) == b.subrange(0, 24 + alen));
        assert(rows.len() == n) by {
            assert(rest.len() == n - 1);
        }
        assert forall|i: int| 0 <= i < rows.len() implies wf_row(#[trigger] rows[i]) by {
            if i == 0 {
                assert(rows[0].alias.len() == alen);
            } else {
                assert(rows[i] == rest[i - 1]);
            }
        }
        assert(spec_encode_rows(rows) == b) by {
            assert(spec_encode_rows(rows) == spec_encode_row(row) + spec_encode_rows(
                rows.skip(1),
            ));
            assert(spec_encode_rows(rows.skip(1)) == b.skip(24 + alen));
            assert(b.subrange(0, 24 + alen) + b.skip(24 + alen) =~= b);
        }
    }
}

/// Serialize a control response into its canonical bytes.
pub fn encode_response(rsp: &Response) -> (out: Vec<u8>)
    ensures
        out@ == spec_encode_response(rsp@),
{
    let mut out: Vec<u8> = Vec::new();
    match rsp {
        Response::NewSession(sid) => {
            write_u32_le(&mut out, 0);
            write_u64_le(&mut out, sid.0);
            proof {
                assert(out@ =~= spec_encode_response(rsp@));
            }
        },
        Response::ListSessions(rows) => {
            write_u32_le(&mut out, 1);
            write_u64_le(&mut out, rows.len() as u64);
            let ghost rowsv = rows@.map_values(|r: SessionInfo| r@);
            let mut i: usize = 0;
            proof {
                assert(rowsv.take(0) =~= Seq::<SessionInfoV>::empty());
                assert(out@ =~= spec_le32(1) + spec_le64(rows@.len() as u64) + spec_encode_rows(
                    rowsv.take(0),
                ));
            }
            while i < rows.len()
                invariant
                    i <= rows@.len(),
                    rowsv == rows@.map_values(|r: SessionInfo| r@),
                    out@ == spec_le32(1) + spec_le64(rows@.len() as u64) + spec_encode_rows(
                        rowsv.take(i as int),
                    ),
                decreases rows@.len() - i,
            {
                write_u64_le(&mut out, rows[i].sid.0);
                write_u64_le(&mut out, rows[i].timestamp);
                write_len_bytes(&mut out, rows[i].alias.as_slice());
                proof {
                    lemma_encode_rows_snoc(rowsv, i as int);
                    assert(out@ =~= spec_le32(1) + spec_le64(rows@.len() as u64)
                        + spec_encode_rows(rowsv.take(i + 1)));
                }
                i += 1;
            }
            proof {
                assert(rowsv.take(rows@.len() as int) =~= rowsv);
                assert(out@ =~= spec_encode_response(rsp@));
            }
        },
        Response::Okay => {
            write_u32_le(&mut out, 2);
            proof {
                assert(out@ =~= spec_encode_response(rsp@));
            }
        },
        Response::Error => {
            write_u32_le(&mut out, 3);
            proof {
                assert(out@ =~= spec_encode_response(rsp@));
            }
        },
    }
    out
}

/// Deserialize a control response: succeeds iff the bytes are exactly one
/// canonical response encoding, and then yields the response they spell.
#[verifier::rlimit(100)]
#[verifier::loop_isolation(false)]
pub fn decode_response(b: &[u8]) -> (r: Result<Response, DecodeError>)
    ensures
        match r {
            Ok(m) => spec_decode_response(b@) == Some(m@),
            Err(_) => spec_decode_response(b@) is None,
        },
{
    if b.len() < 4 {
        return Err(DecodeError);
    }
    let ghost rest = b@.skip(4);
    let tag = read_u32_le(b, 0);
    if tag == 0 {
        if b.len() == 12 {
            proof {
                assert(b@.subrange(4, 12) =~= rest);
            }
            let sid = read_u64_le(b, 4);
            Ok(Response::NewSession(SessionId(sid)))
        } else {
            Err(DecodeError)
        }
    } else if tag == 1 {
        if b.len() < 12 {
            return Err(DecodeError);
        }
        proof {
            assert(b@.subrange(4, 12) =~= rest.subrange(0, 8));
        }
        let n = read_u64_le(b, 4);
        let ghost tail0 = rest.skip(8);
        let mut rows: Vec<SessionInfo> = Vec::new();
        let mut off: usize = 12;
        let mut k: u64 = 0;
        proof {
            assert(b@.skip(12) =~= tail0);
            assert(rows@.map_values(|r: SessionInfo| r@) =~= Seq::<SessionInfoV>::empty());
            assert(spec_decode_rows(tail0, n as nat) == (match spec_decode_rows(
                b@.skip(12),
                (n - k) as nat,
            ) {
                Some(t) => Some(rows@.map_values(|r: SessionInfo| r@) + t),
                None => None::<Seq<SessionInfoV>>,
            })) by {
                if spec_decode_rows(tail0, n as nat) is Some {
                    assert(Seq::<SessionInfoV>::empty() + spec_decode_rows(
                        tail0,
                        n as nat,
                    ).unwrap() =~= spec_decode_rows(tail0, n as nat).unwrap());
                }
            }
        }
        while k < n
            invariant
                12 <= off <= b@.len(),
                k <= n,
                rows@.len() == k,
                spec_decode_rows(tail0, n as nat) == (match spec_decode_rows(
                    b@.skip(off as int),
                    (n - k) as nat,
                ) {
                    Some(t) => Some(rows@.map_values(|r: SessionInfo| r@) + t),
                    None => None::<Seq<SessionInfoV>>,
                }),
                tail0 == b@.skip(12),
            decreases n - k,
        {
            let ghost tail = b@.skip(off as int);
            let ghost prev_views = rows@.map_values(|r: SessionInfo| r@);
            if b.len() - off < 24 {
                proof {
                    assert(tail.len() < 24);
                    assert(spec_decode_rows(tail, (n - k) as nat) is None);
                }
                return Err(DecodeError);
            }
            proof {
                assert(tail.subrange(0, 8) =~= b@.subrange(off as int, off + 8));
                assert(tail.subrange(8, 16) =~= b@.subrange(off + 8, off + 16));
                assert(tail.subrange(16, 24) =~= b@.subrange(off + 16, off + 24));
            }
            let sid = read_u64_le(b, off);
            let ts = read_u64_le(b, off + 8);
            let alen = read_u64_le(b, off + 16);
            if alen > (b.len() - off - 24) as u64 {
                proof {
                    assert(le64_val(tail.subrange(16, 24)) == alen);
                    assert(tail.len() < 24 + alen);
                    assert(spec_decode_rows(tail, (n - k) as nat) is None);
                }
                return Err(DecodeError);
            }
            let aend = off + 24 + (alen as usize);
            let sub = vstd::slice::slice_subrange(b, off + 24, aend);
            let alias = vstd::slice::slice_to_vec(sub);
            proof {
                assert(alias@ =~= tail.subrange(24, 24 + alen as int));
            }
            rows.push(SessionInfo { sid: SessionId(sid), timestamp: ts, alias });
            proof {
                let rowv = SessionInfoV {
                    sid: SessionId(le64_val(tail.subrange(0, 8)) as u64),
                    timestamp: le64_val(tail.subrange(8, 16)) as u64,
                    alias: tail.subrange(24, 24 + alen as int),
                };
                assert(tail.skip(24 + alen as int) =~= b@.skip(aend as int));
                assert(rows@.map_values(|r: SessionInfo| r@) =~= prev_views + seq![rowv]);
                if spec_decode_rows(b@.skip(aend as int), (n - (k + 1)) as nat) is Some {
                    let t2 = spec_decode_rows(b@.skip(aend as int), (n - (k + 1)) as nat).unwrap();
                    assert(spec_decode_rows(tail, (n - k) as nat) == Some(seq![rowv] + t2));
                    assert(prev_views + (seq![rowv] + t2) =~= (prev_views + seq![rowv]) + t2);
                }
            }
            off = aend;
            k += 1;
        }
        if off != b.len() {
            proof {
                assert(b@.skip(off as int).len() != 0);
            }
            return Err(DecodeError);
        }
        proof {
            assert(b@.skip(off as int).len() == 0);
            assert(rows@.map_values(|r: SessionInfo| r@) + Seq::<SessionInfoV>::empty()
                =~= rows@.map_values(|r: SessionInfo| r@));
        }
        Ok(Response::ListSessions(rows))
    } else if tag == 2 {
        if b.len() == 4 {
            Ok(Response::Okay)
        } else {
            Err(DecodeError)
        }
    } else if tag == 3 {
        if b.len() == 4 {
            Ok(Response::Error)
        } else {
            Err(DecodeError)
        }
    } else {
        Err(DecodeError)
    }
}

/// Deserializing the canonical bytes of any control response reconstructs
/// the logical value.
#[verifier::rlimit(60)]
pub proof fn lemma_response_roundtrip(r: ResponseV)
    requires
        wf_response(r),
    ensures
        spec_decode_response(spec_encode_response(r)) == Some(r),
{
    let e = spec_encode_response(r);
    match r {
        ResponseV::NewSession(sid) => {
            assert(e.subrange(0, 4) =~= spec_le32(0));
            lemma_le32_roundtrip(0);
            assert(e.skip(4) =~= spec_le64(sid.0));
            lemma_le64_roundtrip(sid.0);
        },
        ResponseV::ListSessions(rows) => {
            assert(e.subrange(0, 4) =~= spec_le32(1));
            lemma_le32_roundtrip(1);
            let rest = e.skip(4);
            assert(rest =~= spec_le64(rows.len() as u64) + spec_encode_rows(rows));
            assert(rest.subrange(0, 8) =~= spec_le64(rows.len() as u64));
            lemma_le64_roundtrip(rows.len() as u64);
            assert(rest.skip(8) =~= spec_encode_rows(rows));
            lemma_rows_roundtrip(rows);
        },
        ResponseV::Okay => {
            assert(e.subrange(0, 4) =~= spec_le32(2));
            lemma_le32_roundtrip(2);
            assert(e.skip(4) =~= Seq::<u8>::empty());
        },
        ResponseV::Error => {
            assert(e.subrange(0, 4) =~= spec_le32(3));
            lemma_le32_roundtrip(3);
            assert(e.skip(4) =~= Seq::<u8>::empty());
        },
    }
}

/// The encoding of responses is canonical, as it is for requests.
#[verifier::rlimit(100)]
pub proof fn lemma_response_canonical(b: Seq<u8>)
    requires
        spec_decode_response(b) is Some,
    ensures
        wf_response(spec_decode_response(b).unwrap()),
        spec_encode_response(spec_decode_response(b).unwrap()) == b,
{
    let tag = le32_val(b.subrange(0, 4));
    let rest = b.skip(4);
    lemma_le32_canonical(b.subrange(0, 4));
    let r = spec_decode_response(b).unwrap();
    if tag == 0 {
        lemma_le64_canonical(rest);
        assert(spec_encode_response(r) =~= b);
    } else if tag == 1 {
        let n = le64_val(rest.subrange(0, 8));
        lemma_le64_canonical(rest.subrange(0, 8));
        lemma_rows_canonical(rest.skip(8), n as nat);
        let rows = spec_decode_rows(rest.skip(8), n as nat).unwrap();
        assert(spec_le64(rows.len() as u64) == rest.subrange(0, 8));
        assert(spec_le32(1) == b.subrange(0, 4));
        assert(rest.subrange(0, 8) =~= b.subrange(4, 12));
        assert(rest.skip(8) =~= b.skip(12));
        assert(spec_encode_response(r) == b.subrange(0, 4) + b.subrange(4, 12) + b.skip(12));
        assert(b.subrange(0, 4) + b.subrange(4, 12) + b.skip(12) =~= b);
    } else if tag == 2 {
        assert(spec_encode_response(r) =~= b);
    } else {
        assert(tag == 3);
        assert(spec_encode_response(r) =~= b);
    }
}

/// The canonical bytes of a session-phase request.
pub open spec fn spec_encode_session_request(m: SessionRequest) -> Seq<u8> {
    match m {
        SessionRequest::Terminate => spec_le32(0),
        SessionRequest::Detach => spec_le32(1),
    }
}

/// The session-phase request spelled by exactly these bytes, if any.
pub open spec fn spec_decode_session_request(b: Seq<u8>) -> Option<SessionRequest> {
    if b.len() == 4 {
        let tag = le32_val(b.subrange(0, 4));
        if tag == 0 {
            Some(SessionRequest::Terminate)
        } else if tag == 1 {
            Some(SessionRequest::Detach)
        } else {
            None
        }
    } else {
        None
    }
}

/// The canonical bytes of a session-phase response.
pub open spec fn spec_encode_session_response(m: SessionResponse) -> Seq<u8> {
    match m {
        SessionResponse::Terminated(forced) => spec_le32(0) + spec_bool(forced),
        SessionResponse::Error => spec_le32(1),
        SessionResponse::Okay => spec_le32(2),
    }
}

/// The session-phase response spelled by exactly these bytes, if any.
pub open spec fn spec_decode_session_response(b: Seq<u8>) -> Option<SessionResponse> {
    if b.len() < 4 {
        None
    } else {
        let tag = le32_val(b.subrange(0, 4));
        let rest = b.skip(4);
        if tag == 0 {
            if rest.len() == 1 && (rest[0] == 0 || rest[0] == 1) {
                Some(SessionResponse::Terminated(rest[0] == 1))
            } else {
                None
            }
        } else if tag == 1 {
            if rest.len() == 0 {
                Some(SessionResponse::Error)
            } else {
                None
            }
        } else if tag == 2 {
            if rest.len() == 0 {
                Some(SessionResponse::Okay)
            } else {
                None
            }
        } else {
            None
        }
    }
}

/// Serialize a session-phase request into its canonical bytes.
pub fn encode_session_request(m: &SessionRequest) -> (out: Vec<u8>)
    ensures
        out@ == spec_encode_session_request(*m),
{
    let mut out: Vec<u8> = Vec::new();
    match m {
        SessionRequest::Terminate => {
            write_u32_le(&mut out, 0);
        },
        SessionRequest::Detach => {
            write_u32_le(&mut out, 1);
        },
    }
    proof {
        assert(out@ =~= spec_encode_session_request(*m));
    }
    out
}

/// Deserialize a session-phase request: succeeds iff the bytes are exactly
/// one canonical encoding.
pub fn decode_session_request(b: &[u8]) -> (r: Result<SessionRequest, DecodeError>)
    ensures
        match r {
            Ok(m) => spec_decode_session_request(b@) == Some(m),
            Err(_) => spec_decode_session_request(b@) is None,
        },
{
    if b.len() != 4 {
        return Err(DecodeError);
    }
    let tag = read_u32_le(b, 0);
    if tag == 0 {
        Ok(SessionRequest::Terminate)
    } else if tag == 1 {
        Ok(SessionRequest::Detach)
    } else {
        Err(DecodeError)
    }
}

/// Serialize a session-phase response into its canonical bytes.
pub fn encode_session_response(m: &SessionResponse) -> (out: Vec<u8>)
    ensures
        out@ == spec_encode_session_response(*m),
{
    let mut out: Vec<u8> = Vec::new();
    match m {
        SessionResponse::Terminated(forced) => {
            write_u32_le(&mut out, 0);
            write_bool(&mut out, *forced);
        },
        SessionResponse::Error => {
            write_u32_le(&mut out, 1);
        },
        SessionResponse::Okay => {
            write_u32_le(&mut out, 2);
        },
    }
    proof {
        assert(out@ =~= spec_encode_session_response(*m));
    }
    out
}

/// Deserialize a session-phase response: succeeds iff the bytes are exactly
/// one canonical encoding.
pub fn decode_session_response(b: &[u8]) -> (r: Result<SessionResponse, DecodeError>)
    ensures
        match r {
            Ok(m) => spec_decode_session_response(b@) == Some(m),
            Err(_) => spec_decode_session_response(b@) is None,
        },
{
    if b.len() < 4 {
        return Err(DecodeError);
    }
    let tag = read_u32_le(b, 0);
    if tag == 0 {
        if b.len() != 5 {
            return Err(DecodeError);
        }
        proof {
            assert(b@[4] == b@.skip(4)[0]);
        }
        match read_bool(b, 4) {
            Ok(forced) => Ok(SessionResponse::Terminated(forced)),
            Err(e) => Err(e),
        }
    } else if tag == 1 {
        if b.len() == 4 {
            Ok(SessionResponse::Error)
        } else {
            Err(DecodeError)
        }
    } else if tag == 2 {
        if b.len() == 4 {
            Ok(SessionResponse::Okay)
        } else {
            Err(DecodeError)
        }
    } else {
        Err(DecodeError)
    }
}

/// Deserializing the canonical bytes of any session-phase request
/// reconstructs it.
pub proof fn lemma_session_request_roundtrip(m: SessionRequest)
    ensures
        spec_decode_session_request(spec_encode_session_request(m)) == Some(m),
{
    let e = spec_encode_session_request(m);
    match m {
        SessionRequest::Terminate => {
            assert(e.subrange(0, 4) =~= spec_le32(0));
            lemma_le32_roundtrip(0);
        },
        SessionRequest::Detach => {
            assert(e.subrange(0, 4) =~= spec_le32(1));
            lemma_le32_roundtrip(1);
        },
    }
}

/// The encoding of session-phase requests is canonical.
pub proof fn lemma_session_request_canonical(b: Seq<u8>)
    requires
        spec_decode_session_request(b) is Some,
    ensures
        spec_encode_session_request(spec_decode_session_request(b).unwrap()) == b,
{
    lemma_le32_canonical(b.subrange(0, 4));
    assert(spec_encode_session_request(spec_decode_session_request(b).unwrap()) =~= b);
}

/// Deserializing the canonical bytes of any session-phase response
/// reconstructs it.
pub proof fn lemma_session_response_roundtrip(m: SessionResponse)
    ensures
        spec_decode_session_response(spec_encode_session_response(m)) == Some(m),
{
    let e = spec_encode_session_response(m);
    match m {
        SessionResponse::Terminated(forced) => {
            assert(e.subrange(0, 4) =~= spec_le32(0));
            lemma_le32_roundtrip(0);
            assert(e.skip(4) =~= spec_bool(forced));
        },
        SessionResponse::Error => {
            assert(e.subrange(0, 4) =~= spec_le32(1));
            lemma_le32_roundtrip(1);
            assert(e.skip(4) =~= Seq::<u8>::empty());
        },
        SessionResponse::Okay => {
            assert(e.subrange(0, 4) =~= spec_le32(2));
            lemma_le32_roundtrip(2);
            assert(e.skip(4) =~= Seq::<u8>::empty());
        },
    }
}

/// The encoding of session-phase responses is canonical.
pub proof fn lemma_session_response_canonical(b: Seq<u8>)
    requires
        spec_decode_session_response(b) is Some,
    ensures
        spec_encode_session_response(spec_decode_session_response(b).unwrap()) == b,
{
    let tag = le32_val(b.subrange(0, 4));
    lemma_le32_canonical(b.subrange(0, 4));
    let rest = b.skip(4);
    if tag == 0 {
        assert(spec_bool(rest[0] == 1) =~= seq![rest[0]]);
    }
    assert(spec_encode_session_response(spec_decode_session_response(b).unwrap()) =~= b);
}

} // verus!
