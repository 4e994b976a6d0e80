//! The wire formats the dispatcher reads and writes.
//!
//! A call payload frames a method name and argument bytes:
//! a 4-byte big-endian length, the method as UTF-8, a 4-byte big-endian
//! length, and the argument bytes, with nothing trailing.
//!
//! An output envelope is a tag byte followed by the payload: `0` for a
//! success value, `1` for the UTF-8 text of an error message.

use vstd::prelude::*;
use vstd::utf8::{decode_utf8, encode_utf8, valid_utf8};

verus! {

/// The big-endian value of a 4-byte sequence.
pub open spec fn be32(s: Seq<u8>) -> nat
    recommends
        s.len() == 4,
{
    (((s[0] * 256 + s[1]) * 256 + s[2]) * 256 + s[3]) as nat
}

/// How a raw payload parses: a malformed frame, malformed argument bytes,
/// or a method name with its argument bytes.
pub enum ParsedCall {
    BadEnvelope,
    BadArgs,
    Parsed { method: Seq<char>, args: Seq<u8> },
}

/// The meaning of a raw call payload.
pub open spec fn parse_call(b: Seq<u8>) -> ParsedCall {
    if b.len() < 4 {
        ParsedCall::BadEnvelope
    } else {
        let ml = be32(b.subrange(0, 4)) as int;
        if b.len() < 4 + ml {
            ParsedCall::BadEnvelope
        } else {
            let mbytes = b.subrange(4, 4 + ml);
            if !valid_utf8(mbytes) {
                ParsedCall::BadEnvelope
            } else {
                let rest = b.subrange(4 + ml, b.len() as int);
                if rest.len() < 4 {
                    ParsedCall::BadArgs
                } else if rest.len() != 4 + be32(rest.subrange(0, 4)) {
                    ParsedCall::BadArgs
                } else {
                    ParsedCall::Parsed {
                        method: decode_utf8(mbytes),
                        args: rest.subrange(4, rest.len() as int),
                    }
                }
            }
        }
    }
}

/// A parsed call payload: the unit of input for one transaction slot.
pub struct CallEnvelope {
    pub method: String,
    pub args: Vec<u8>,
}

/// Which layer of a call payload failed to parse.
pub enum DecodeFail {
    Envelope,
    Args,
}

/// The wire form of a successful slot outcome.
pub open spec fn success_envelope(value: Seq<u8>) -> Seq<u8> {
    seq![0u8] + value
}

/// The wire form of a failed slot outcome.
pub open spec fn error_envelope(message: Seq<char>) -> Seq<u8> {
    seq![1u8] + encode_utf8(message)
}

/// A success envelope is never byte-identical to an error envelope.
pub proof fn lemma_envelopes_distinct(value: Seq<u8>, message: Seq<char>)
    ensures
        success_envelope(value) != error_envelope(message),
{
    assert(success_envelope(value)[0] == 0u8);
    assert(error_envelope(message)[0] == 1u8);
}

/// Relies on `String::from_utf8`: returns the decoded characters exactly
/// when the bytes are valid UTF-8, and refuses otherwise.
#[verifier::external_body]
fn string_from_utf8(bytes: Vec<u8>) -> (r: Option<String>)
    ensures
        r matches Some(s) ==> valid_utf8(bytes@) && s@ == decode_utf8(bytes@),
        r is None ==> !valid_utf8(bytes@),
{
    match String::from_utf8(bytes) {
        Ok(s) => Some(s),
        Err(_) => None,
    }
}

/// Copy `v[from..to]` into a fresh vector.
fn sub_vec(v: &Vec<u8>, from: usize, to: usize) -> (r: Vec<u8>)
    requires
        from <= to <= v@.len(),
    ensures
        r@ == v@.subrange(from as int, to as int),
{
    let mut r: Vec<u8> = Vec::new();
    let mut i: usize = from;
    while i < to
        invariant
            from <= i <= to <= v@.len(),
            r@ == v@.subrange(from as int, i as int),
        decreases to - i,
    {
        r.push(v[i]);
        i = i + 1;
        proof {
            assert(r@ =~= v@.subrange(from as int, i as int));
        }
    }
    r
}

/// Read the big-endian 4-byte value at `off`.
fn read_be32(v: &Vec<u8>, off: usize) -> (r: u32)
    requires
        off + 4 <= v@.len(),
    ensures
        r == be32(v@.subrange(off as int, off as int + 4)),
{
    let _n: usize = v.len();
    let b0 = v[off] as u32;
    let b1 = v[off + 1] as u32;
    let b2 = v[off + 2] as u32;
    let b3 = v[off + 3] as u32;
    proof {
        let s = v@.subrange(off as int, off as int + 4);
        assert(s[0] == v@[off as int] && s[1] == v@[off as int + 1] && s[2] == v@[off as int + 2]
            && s[3] == v@[off as int + 3]);
    }
    ((b0 * 256 + b1) * 256 + b2) * 256 + b3
}

/// Append the big-endian 4-byte form of `n` to `out`.
fn push_be32(out: &mut Vec<u8>, n: u32)
    ensures
        final(out)@.len() == old(out)@.len() + 4,
        final(out)@.subrange(0, old(out)@.len() as int) == old(out)@,
        be32(final(out)@.subrange(old(out)@.len() as int, old(out)@.len() as int + 4)) == n,
{
    let b0: u8 = (n / 16777216) as u8;
    let b1: u8 = ((n / 65536) % 256) as u8;
    let b2: u8 = ((n / 256) % 256) as u8;
    let b3: u8 = (n % 256) as u8;
    out.push(b0);
    out.push(b1);
    out.push(b2);
    out.push(b3);
    proof {
        let pre = old(out)@;
        let s = final(out)@.subrange(pre.len() as int, pre.len() as int + 4);
        assert(s =~= seq![b0, b1, b2, b3]);
        assert(final(out)@.subrange(0, pre.len() as int) =~= pre);
        assert(((b0 * 256 + b1) * 256 + b2) * 256 + b3 == n) by {
            assert(b0 == n / 16777216 && b1 == (n / 65536) % 256 && b2 == (n / 256) % 256 && b3
                == n % 256);
            assert(n / 16777216 == (n / 65536) / 256) by (nonlinear_arith);
            assert(n / 65536 == (n / 256) / 256) by (nonlinear_arith);
            assert((n / 65536) / 256 * 256 + (n / 65536) % 256 == n / 65536) by (nonlinear_arith);
            assert((n / 256) / 256 * 256 + (n / 256) % 256 == n / 256) by (nonlinear_arith);
            assert((n / 256) * 256 + n % 256 == n) by (nonlinear_arith);
        };
    }
}

/// Decode a raw call payload into a call envelope, naming the layer that
/// failed when the payload is malformed.
pub fn decode_call(b: &Vec<u8>) -> (r: Result<CallEnvelope, DecodeFail>)
    ensures
        match parse_call(b@) {
            ParsedCall::BadEnvelope => r matches Err(DecodeFail::Envelope),
            ParsedCall::BadArgs => r matches Err(DecodeFail::Args),
            ParsedCall::Parsed { method, args } => r matches Ok(env) && env.method@ == method
                && env.args@ == args,
        },
{
    let n: usize = b.len();
    if n < 4 {
        return Err(DecodeFail::Envelope);
    }
    let ml = read_be32(b, 0);
    let need: u64 = 4u64 + ml as u64;
    if (n as u64) < need {
        return Err(DecodeFail::Envelope);
    }
    let mend: usize = need as usize;
    let mbytes = sub_vec(b, 4, mend);
    let method = match string_from_utf8(mbytes) {
        Some(s) => s,
        None => {
            return Err(DecodeFail::Envelope);
        },
    };
    proof {
        assert(b@.subrange(4 + ml as int, n as int) =~= b@.subrange(mend as int, n as int));
    }
    if n - mend < 4 {
        return Err(DecodeFail::Args);
    }
    let al = read_be32(b, mend);
    proof {
        let rest = b@.subrange(mend as int, n as int);
        assert(rest.subrange(0, 4) =~= b@.subrange(mend as int, mend as int + 4));
    }
    if (n - mend) as u64 != 4u64 + al as u64 {
        return Err(DecodeFail::Args);
    }
    let args = sub_vec(b, mend + 4, n);
    proof {
        let rest = b@.subrange(mend as int, n as int);
        assert(rest.subrange(4, rest.len() as int) =~= b@.subrange(mend as int + 4, n as int));
    }
    Ok(CallEnvelope { method, args })
}

/// Frame a method name and argument bytes as a raw call payload.
///
/// Decoding the result gives back exactly the method and the arguments.
pub fn encode_call(method: &String, args: &Vec<u8>) -> (r: Vec<u8>)
    requires
        encode_utf8(method@).len() < 0x1_0000_0000,
        args@.len() < 0x1_0000_0000,
    ensures
        parse_call(r@) == (ParsedCall::Parsed { method: method@, args: args@ }),
{
    broadcast use vstd::utf8::encode_utf8_valid_utf8, vstd::utf8::encode_utf8_decode_utf8;

    let mut mbytes = method.as_str().as_bytes_vec();
    let mut abytes = sub_vec(args, 0, args.len());
    let mlen: u32 = mbytes.len() as u32;
    let alen: u32 = abytes.len() as u32;
    let mut out: Vec<u8> = Vec::new();
    push_be32(&mut out, mlen);
    let ghost head = out@;
    out.append(&mut mbytes);
    let ghost with_method = out@;
    push_be32(&mut out, alen);
    let ghost with_alen = out@;
    out.append(&mut abytes);
    proof {
        let o = out@;
        let mb = encode_utf8(method@);
        let ml = mb.len() as int;
        assert(with_method == head + mb);
        assert(with_alen.subrange(0, 4 + ml) == with_method);
        assert(o == with_alen + args@);
        assert(o.len() == 4 + ml + 4 + args@.len());
        assert forall|i: int| 0 <= i < o.len() implies o[i] == (if i < 8 + ml {
            with_alen[i]
        } else {
            args@[i - (8 + ml)]
        }) by {
            assert(o[i] == (with_alen + args@)[i]);
        }
        assert forall|i: int| 0 <= i < 4 + ml implies with_alen[i] == with_method[i] by {
            assert(with_alen.subrange(0, 4 + ml)[i] == with_alen[i]);
        }
        assert forall|i: int| 0 <= i < 4 + ml implies with_method[i] == (if i < 4 {
            head[i]
        } else {
            mb[i - 4]
        }) by {
            assert(with_method[i] == (head + mb)[i]);
        }
        assert(o.subrange(0, 4) =~= head);
        assert(be32(o.subrange(0, 4)) == mb.len());
        assert(o.subrange(4, 4 + ml) =~= mb);
        let rest = o.subrange(4 + ml, o.len() as int);
        assert(rest.subrange(0, 4) =~= with_alen.subrange(4 + ml, 8 + ml));
        assert(be32(with_alen.subrange(4 + ml, 8 + ml)) == alen);
        assert(rest.len() == 4 + args@.len());
        assert(rest.subrange(4, rest.len() as int) =~= args@);
        assert(parse_call(o) == (ParsedCall::Parsed { method: method@, args: args@ }));
    }
    out
}

/// Wrap a success value in its wire envelope.
pub fn encode_success(value: &Vec<u8>) -> (r: Vec<u8>)
    ensures
        r@ == success_envelope(value@),
{
    let mut r: Vec<u8> = Vec::new();
    r.push(0u8);
    let mut tail = sub_vec(value, 0, value.len());
    r.append(&mut tail);
    proof {
        assert(r@ =~= success_envelope(value@));
    }
    r
}

/// Wrap an error message in its wire envelope.
pub fn encode_error(message: &String) -> (r: Vec<u8>)
    ensures
        r@ == error_envelope(message@),
{
    let mut r: Vec<u8> = Vec::new();
    r.push(1u8);
    let mut tail = message.as_str().as_bytes_vec();
    r.append(&mut tail);
    proof {
        assert(r@ =~= error_envelope(message@));
    }
    r
}

} // verus!
