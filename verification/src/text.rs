//! Plain-text helpers: decimal numbers, the session label, the socket name.
//!
//! Session ids are displayed as `session(N)`; the client accepts an id
//! argument as a decimal number — optionally `+`-signed, as the standard
//! integer grammar has it — that must be nonzero and fit 64 bits.  The
//! server's socket file is named after the package version so that daemons
//! of different versions do not collide.

use vstd::prelude::*;

verus! {

/// The decimal digits of `n`, most significant first, without leading
/// zeroes (`0` itself is the single digit `0`).
pub open spec fn spec_decimal(n: u64) -> Seq<u8>
    decreases n,
{
    if n < 10 {
        seq![(n + 0x30) as u8]
    } else {
        spec_decimal(n / 10).push(((n % 10) + 0x30) as u8)
    }
}

/// Format `n` in decimal.
pub fn format_u64(n: u64) -> (out: Vec<u8>)
    ensures
        out@ == spec_decimal(n),
    decreases n,
{
    if n < 10 {
        let mut out: Vec<u8> = Vec::new();
        out.push((n as u8) + 0x30);
        proof {
            assert(out@ =~= spec_decimal(n));
        }
        out
    } else {
        proof {
            assert(n / 10 < n) by (nonlinear_arith)
                requires
                    n >= 10,
            ;
        }
        let mut out = format_u64(n / 10);
        out.push(((n % 10) as u8) + 0x30);
        out
    }
}

/// The value of a run of decimal digit bytes, most significant first.
pub open spec fn spec_digits_val(b: Seq<u8>) -> int
    decreases b.len(),
{
    if b.len() == 0 {
        0
    } else {
        spec_digits_val(b.take(b.len() - 1)) * 10 + (b.last() - 0x30)
    }
}

/// Every byte is a decimal digit, and there is at least one.
pub open spec fn spec_all_digits(b: Seq<u8>) -> bool {
    b.len() > 0 && forall|i: int| 0 <= i < b.len() ==> 0x30 <= #[trigger] b[i] <= 0x39
}

/// The digits of a number, with an optional leading `+` sign stripped, as
/// the standard unsigned-integer grammar has it.
pub open spec fn spec_unsigned_body(b: Seq<u8>) -> Seq<u8> {
    if b.len() > 0 && b[0] == 0x2B {
        b.skip(1)
    } else {
        b
    }
}

/// Whether `b` spells a nonzero unsigned 64-bit number: an optional `+`,
/// then digits only, valuing in `[1, 2^64)`.
pub open spec fn spec_is_nonzero_u64(b: Seq<u8>) -> bool {
    &&& spec_all_digits(spec_unsigned_body(b))
    &&& 0 < spec_digits_val(spec_unsigned_body(b)) < 0x1_0000_0000_0000_0000
}

/// A longer run of digits never values less: appending digits multiplies by
/// ten and adds a digit.
proof fn lemma_digits_val_monotonic(b: Seq<u8>, i: int)
    requires
        0 <= i <= b.len(),
        forall|j: int| 0 <= j < b.len() ==> 0x30 <= #[trigger] b[j] <= 0x39,
    ensures
        spec_digits_val(b) >= spec_digits_val(b.take(i)),
        spec_digits_val(b) >= 0,
    decreases b.len(),
{
    if b.len() == 0 {
    } else {
        let head = b.take(b.len() - 1);
        lemma_digits_val_monotonic(head, if i < b.len() {
            i
        } else {
            b.len() - 1
        });
        assert(spec_digits_val(head) * 10 >= spec_digits_val(head)) by (nonlinear_arith)
            requires
                spec_digits_val(head) >= 0,
        ;
        if i < b.len() {
            assert(head.take(i) =~= b.take(i));
        } else {
            assert(b.take(i) =~= b);
        }
    }
}

/// Parse a nonzero unsigned 64-bit number: accepts exactly the byte strings
/// of `spec_is_nonzero_u64`, and returns the number they spell.
pub fn parse_nonzero_u64(b: &[u8]) -> (r: Option<u64>)
    ensures
        match r {
            Some(v) => spec_is_nonzero_u64(b@) && v == spec_digits_val(spec_unsigned_body(b@))
                && v > 0,
            None => !spec_is_nonzero_u64(b@),
        },
{
    let start: usize = if b.len() > 0 && b[0] == 0x2B {
        1
    } else {
        0
    };
    let ghost body = spec_unsigned_body(b@);
    proof {
        assert(body =~= b@.skip(start as int));
    }
    if b.len() == start {
        return None;
    }
    let mut v: u64 = 0;
    let mut i: usize = start;
    while i < b.len()
        invariant
            start <= i <= b@.len(),
            body == b@.skip(start as int),
            body == spec_unsigned_body(b@),
            b@.len() > start,
            v == spec_digits_val(body.take(i - start)),
            forall|j: int| 0 <= j < i - start ==> 0x30 <= #[trigger] body[j] <= 0x39,
        decreases b@.len() - i,
    {
        let c = b[i];
        if c < 0x30 || c > 0x39 {
            proof {
                assert(body[i - start] == b@[i as int]);
                assert(!spec_all_digits(body));
            }
            return None;
        }
        let d = (c - 0x30) as u64;
        if v > (u64::MAX - d) / 10 {
            // The digits read so far already carry the full number past the
            // 64-bit range, and further digits only grow it.
            proof {
                assert(spec_digits_val(body.take(i + 1 - start)) == v * 10 + d) by {
                    assert(body.take(i + 1 - start).take(i - start) =~= body.take(i - start));
                }
                assert(v * 10 + d >= 0x1_0000_0000_0000_0000) by (nonlinear_arith)
                    requires
                        v > (u64::MAX - d) / 10,
                        v <= u64::MAX,
                        0 <= d <= 9,
                ;
                if spec_all_digits(body) {
                    lemma_digits_val_monotonic(body, i + 1 - start);
                }
            }
            return None;
        }
        proof {
            assert(spec_digits_val(body.take(i + 1 - start)) == v * 10 + d) by {
                assert(body.take(i + 1 - start).take(i - start) =~= body.take(i - start));
            }
        }
        v = v * 10 + d;
        i += 1;
    }
    proof {
        assert(body.take(b@.len() - start) =~= body);
    }
    if v == 0 {
        return None;
    }
    Some(v)
}

/// The label a session id is displayed as: `session(N)`.
pub fn session_label(sid: crate::proto::SessionId) -> (out: Vec<u8>)
    ensures
        out@ == seq![
            0x73u8,
            0x65u8,
            0x73u8,
            0x73u8,
            0x69u8,
            0x6Fu8,
            0x6Eu8,
            0x28u8,
        ] + spec_decimal(sid.0) + seq![0x29u8],
{
    let mut out: Vec<u8> = Vec::new();
    out.push(0x73);
    out.push(0x65);
    out.push(0x73);
    out.push(0x73);
    out.push(0x69);
    out.push(0x6F);
    out.push(0x6E);
    out.push(0x28);
    let digits = format_u64(sid.0);
    let mut i: usize = 0;
    while i < digits.len()
        invariant
            i <= digits@.len(),
            digits@ == spec_decimal(sid.0),
            out@ == seq![
                0x73u8,
                0x65u8,
                0x73u8,
                0x73u8,
                0x69u8,
                0x6Fu8,
                0x6Eu8,
                0x28u8,
            ] + digits@.take(i as int),
        decreases digits@.len() - i,
    {
        out.push(digits[i]);
        proof {
            assert(digits@.take(i + 1) =~= digits@.take(i as int).push(digits@[i as int]));
        }
        i += 1;
    }
    out.push(0x29);
    proof {
        assert(digits@.take(digits@.len() as int) =~= digits@);
        assert(out@ =~= seq![
            0x73u8,
            0x65u8,
            0x73u8,
            0x73u8,
            0x69u8,
            0x6Fu8,
            0x6Eu8,
            0x28u8,
        ] + spec_decimal(sid.0) + seq![0x29u8]);
    }
    out
}

/// The server's socket file name: `hxd-<version>.sock`, under the system
/// temp directory.  The version suffix prevents collisions across upgrades.
pub fn socket_file_name(version: &[u8]) -> (out: Vec<u8>)
    ensures
        out@ == seq![0x68u8, 0x78u8, 0x64u8, 0x2Du8] + version@ + seq![
            0x2Eu8,
            0x73u8,
            0x6Fu8,
            0x63u8,
            0x6Bu8,
        ],
{
    let mut out: Vec<u8> = Vec::new();
    out.push(0x68);
    out.push(0x78);
    out.push(0x64);
    out.push(0x2D);
    let mut i: usize = 0;
    while i < version.len()
        invariant
            i <= version@.len(),
            out@ == seq![0x68u8, 0x78u8, 0x64u8, 0x2Du8] + version@.take(i as int),
        decreases version@.len() - i,
    {
        out.push(version[i]);
        proof {
            assert(version@.take(i + 1) =~= version@.take(i as int).push(version@[i as int]));
        }
        i += 1;
    }
    out.push(0x2E);
    out.push(0x73);
    out.push(0x6F);
    out.push(0x63);
    out.push(0x6B);
    proof {
        assert(version@.take(version@.len() as int) =~= version@);
        assert(out@ =~= seq![0x68u8, 0x78u8, 0x64u8, 0x2Du8] + version@ + seq![
            0x2Eu8,
            0x73u8,
            0x6Fu8,
            0x63u8,
            0x6Bu8,
        ]);
    }
    out
}

} // verus!
