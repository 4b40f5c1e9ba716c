//! Primitives of the wire codec. Every value the pipeline transmits is
//! framed with these: fixed-width little-endian integers, single-byte tags
//! and booleans, and length-prefixed byte strings and UTF-8 text.
//!
//! The pipeline frames messages in this canonical binary encoding of its
//! own rather than a general-purpose text encoding: the format is written
//! down here in full, serialization is total, and the parser accepts
//! exactly what the serializer produces, which is what makes the round-trip
//! guarantee provable for every event.
//!
//! Each primitive has a specification-level serializer `ser_*`, a
//! specification-level parser `parse_*` consuming from the front of a byte
//! sequence, an executable encoder `enc_*` appending to an output buffer, an
//! executable decoder `dec_*` reading at a position, and a lemma showing the
//! parser inverts the serializer.

use vstd::prelude::*;

use vstd::bytes::{
    lemma_auto_spec_u64_to_from_le_bytes, spec_u64_from_le_bytes, spec_u64_to_le_bytes,
    u64_from_le_bytes, u64_to_le_bytes,
};
use vstd::slice::{slice_subrange, slice_to_vec};
use vstd::utf8::{decode_utf8, encode_utf8, encode_utf8_decode_utf8, encode_utf8_valid_utf8, valid_utf8};

verus! {

// ---------------------------------------------------------------------------
// Specification-level serializers
// ---------------------------------------------------------------------------
pub open spec fn ser_u8(v: u8) -> Seq<u8> {
    seq![v]
}

pub open spec fn ser_bool(v: bool) -> Seq<u8> {
    seq![if v { 1u8 } else { 0u8 }]
}

pub open spec fn ser_u64(v: u64) -> Seq<u8> {
    spec_u64_to_le_bytes(v)
}

/// A signed 64-bit value travels as its two's-complement bit pattern.
pub open spec fn ser_i64(v: i64) -> Seq<u8> {
    spec_u64_to_le_bytes(v as u64)
}

/// A byte string travels as a 64-bit length followed by the bytes.
pub open spec fn ser_bytes(v: Seq<u8>) -> Seq<u8> {
    ser_u64(v.len() as u64) + v
}

/// Text travels as its UTF-8 encoding, length-prefixed.
pub open spec fn ser_string(s: Seq<char>) -> Seq<u8> {
    ser_bytes(encode_utf8(s))
}

// ---------------------------------------------------------------------------
// Specification-level parsers
// ---------------------------------------------------------------------------
pub open spec fn parse_u8(s: Seq<u8>) -> Option<(u8, Seq<u8>)> {
    if s.len() >= 1 {
        Some((s[0], s.skip(1)))
    } else {
        None
    }
}

/// A boolean must be the byte 0 or 1; any other byte is rejected, which
/// keeps the encoding canonical.
pub open spec fn parse_bool(s: Seq<u8>) -> Option<(bool, Seq<u8>)> {
    match parse_u8(s) {
        Some((b, r)) => if b == 0 {
            Some((false, r))
        } else if b == 1 {
            Some((true, r))
        } else {
            None
        },
        None => None,
    }
}

pub open spec fn parse_u64(s: Seq<u8>) -> Option<(u64, Seq<u8>)> {
    if s.len() >= 8 {
        Some((spec_u64_from_le_bytes(s.take(8)), s.skip(8)))
    } else {
        None
    }
}

pub open spec fn parse_i64(s: Seq<u8>) -> Option<(i64, Seq<u8>)> {
    match parse_u64(s) {
        Some((v, r)) => Some((v as i64, r)),
        None => None,
    }
}

pub open spec fn parse_bytes(s: Seq<u8>) -> Option<(Seq<u8>, Seq<u8>)> {
    match parse_u64(s) {
        Some((n, r)) => if n <= r.len() {
            Some((r.take(n as int), r.skip(n as int)))
        } else {
            None
        },
        None => None,
    }
}

pub open spec fn parse_string(s: Seq<u8>) -> Option<(Seq<char>, Seq<u8>)> {
    match parse_bytes(s) {
        Some((b, r)) => if valid_utf8(b) {
            Some((decode_utf8(b), r))
        } else {
            None
        },
        None => None,
    }
}

// ---------------------------------------------------------------------------
// Round-trip lemmas: parsing what was serialized yields the value back and
// leaves exactly the rest.
// ---------------------------------------------------------------------------
pub proof fn lemma_parse_ser_u8(v: u8, rest: Seq<u8>)
    ensures
        parse_u8(ser_u8(v) + rest) == Some((v, rest)),
{
    assert((ser_u8(v) + rest).skip(1) =~= rest);
}

pub proof fn lemma_parse_ser_bool(v: bool, rest: Seq<u8>)
    ensures
        parse_bool(ser_bool(v) + rest) == Some((v, rest)),
{
    assert(ser_bool(v) =~= ser_u8(if v { 1u8 } else { 0u8 }));
    lemma_parse_ser_u8(if v { 1u8 } else { 0u8 }, rest);
}

pub proof fn lemma_parse_ser_u64(v: u64, rest: Seq<u8>)
    ensures
        parse_u64(ser_u64(v) + rest) == Some((v, rest)),
{
    lemma_auto_spec_u64_to_from_le_bytes();
    let s = ser_u64(v) + rest;
    assert(s.take(8) =~= ser_u64(v));
    assert(s.skip(8) =~= rest);
}

pub proof fn lemma_parse_ser_i64(v: i64, rest: Seq<u8>)
    ensures
        parse_i64(ser_i64(v) + rest) == Some((v, rest)),
{
    lemma_parse_ser_u64(v as u64, rest);
    assert((v as u64) as i64 == v) by (bit_vector);
}

pub proof fn lemma_parse_ser_bytes(v: Seq<u8>, rest: Seq<u8>)
    requires
        v.len() <= u64::MAX,
    ensures
        parse_bytes(ser_bytes(v) + rest) == Some((v, rest)),
{
    let s = ser_bytes(v) + rest;
    assert(s =~= ser_u64(v.len() as u64) + (v + rest));
    lemma_parse_ser_u64(v.len() as u64, v + rest);
    assert((v + rest).take(v.len() as int) =~= v);
    assert((v + rest).skip(v.len() as int) =~= rest);
}

pub proof fn lemma_parse_ser_string(cs: Seq<char>, rest: Seq<u8>)
    requires
        encode_utf8(cs).len() <= u64::MAX,
    ensures
        parse_string(ser_string(cs) + rest) == Some((cs, rest)),
{
    broadcast use encode_utf8_valid_utf8, encode_utf8_decode_utf8;

    lemma_parse_ser_bytes(encode_utf8(cs), rest);
}

// ---------------------------------------------------------------------------
// Executable encoders
// ---------------------------------------------------------------------------
pub fn enc_u8(out: &mut Vec<u8>, v: u8)
    ensures
        final(out)@ == old(out)@ + ser_u8(v),
{
    out.push(v);
    proof {
        assert(out@ =~= old(out)@ + ser_u8(v));
    }
}

pub fn enc_bool(out: &mut Vec<u8>, v: bool)
    ensures
        final(out)@ == old(out)@ + ser_bool(v),
{
    out.push(if v { 1 } else { 0 });
    proof {
        assert(out@ =~= old(out)@ + ser_bool(v));
    }
}

pub fn enc_u64(out: &mut Vec<u8>, v: u64)
    ensures
        final(out)@ == old(out)@ + ser_u64(v),
{
    let mut b = u64_to_le_bytes(v);
    out.append(&mut b);
}

pub fn enc_i64(out: &mut Vec<u8>, v: i64)
    ensures
        final(out)@ == old(out)@ + ser_i64(v),
{
    enc_u64(out, v as u64);
}

pub fn enc_bytes(out: &mut Vec<u8>, v: &Vec<u8>)
    ensures
        final(out)@ == old(out)@ + ser_bytes(v@),
{
    enc_u64(out, v.len() as u64);
    out.extend_from_slice(v.as_slice());
    proof {
        assert(out@ =~= old(out)@ + ser_bytes(v@));
    }
}

pub fn enc_string(out: &mut Vec<u8>, s: &String)
    ensures
        final(out)@ == old(out)@ + ser_string(s@),
{
    let bytes = s.as_str().as_bytes_vec();
    enc_bytes(out, &bytes);
}

// ---------------------------------------------------------------------------
// Executable decoders
// ---------------------------------------------------------------------------
/// Relies on String::from_utf8: succeeds exactly on valid UTF-8 input and
/// yields the text those bytes encode.
#[verifier::external_body]
fn string_from_utf8(bytes: Vec<u8>) -> (r: Option<String>)
    ensures
        match r {
            Some(s) => valid_utf8(bytes@) && s@ == decode_utf8(bytes@),
            None => !valid_utf8(bytes@),
        },
{
    String::from_utf8(bytes).ok()
}

pub fn dec_u8(data: &Vec<u8>, pos: usize) -> (r: Option<(u8, usize)>)
    requires
        pos <= data@.len(),
    ensures
        match r {
            Some((v, next)) => pos <= next <= data@.len() && parse_u8(data@.skip(pos as int))
                == Some((v, data@.skip(next as int))),
            None => parse_u8(data@.skip(pos as int)) is None,
        },
{
    if data.len() - pos >= 1 {
        let v = data[pos];
        proof {
            assert(data@.skip(pos as int)[0] == data@[pos as int]);
            assert(data@.skip(pos as int).skip(1) =~= data@.skip(pos as int + 1));
        }
        Some((v, pos + 1))
    } else {
        None
    }
}

pub fn dec_bool(data: &Vec<u8>, pos: usize) -> (r: Option<(bool, usize)>)
    requires
        pos <= data@.len(),
    ensures
        match r {
            Some((v, next)) => pos <= next <= data@.len() && parse_bool(data@.skip(pos as int))
                == Some((v, data@.skip(next as int))),
            None => parse_bool(data@.skip(pos as int)) is None,
        },
{
    match dec_u8(data, pos) {
        Some((b, next)) => {
            if b == 0 {
                Some((false, next))
            } else if b == 1 {
                Some((true, next))
            } else {
                None
            }
        },
        None => None,
    }
}

pub fn dec_u64(data: &Vec<u8>, pos: usize) -> (r: Option<(u64, usize)>)
    requires
        pos <= data@.len(),
    ensures
        match r {
            Some((v, next)) => pos <= next <= data@.len() && parse_u64(data@.skip(pos as int))
                == Some((v, data@.skip(next as int))),
            None => parse_u64(data@.skip(pos as int)) is None,
        },
{
    if data.len() - pos >= 8 {
        let s = slice_subrange(data.as_slice(), pos, pos + 8);
        let v = u64_from_le_bytes(s);
        proof {
            assert(data@.skip(pos as int).take(8) =~= data@.subrange(pos as int, pos as int + 8));
            assert(data@.skip(pos as int).skip(8) =~= data@.skip(pos as int + 8));
        }
        Some((v, pos + 8))
    } else {
        None
    }
}

pub fn dec_i64(data: &Vec<u8>, pos: usize) -> (r: Option<(i64, usize)>)
    requires
        pos <= data@.len(),
    ensures
        match r {
            Some((v, next)) => pos <= next <= data@.len() && parse_i64(data@.skip(pos as int))
                == Some((v, data@.skip(next as int))),
            None => parse_i64(data@.skip(pos as int)) is None,
        },
{
    match dec_u64(data, pos) {
        Some((v, next)) => Some((v as i64, next)),
        None => None,
    }
}

pub fn dec_bytes(data: &Vec<u8>, pos: usize) -> (r: Option<(Vec<u8>, usize)>)
    requires
        pos <= data@.len(),
    ensures
        match r {
            Some((v, next)) => pos <= next <= data@.len() && parse_bytes(data@.skip(pos as int))
                == Some((v@, data@.skip(next as int))),
            None => parse_bytes(data@.skip(pos as int)) is None,
        },
{
    match dec_u64(data, pos) {
        Some((n, next)) => {
            let remaining = data.len() - next;
            if n <= remaining as u64 {
                let n_us = n as usize;
                let v = slice_to_vec(slice_subrange(data.as_slice(), next, next + n_us));
                proof {
                    assert(data@.skip(next as int).take(n as int) =~= data@.subrange(
                        next as int,
                        next as int + n as int,
                    ));
                    assert(data@.skip(next as int).skip(n as int) =~= data@.skip(
                        next as int + n as int,
                    ));
                }
                Some((v, next + n_us))
            } else {
                None
            }
        },
        None => None,
    }
}

pub fn dec_string(data: &Vec<u8>, pos: usize) -> (r: Option<(String, usize)>)
    requires
        pos <= data@.len(),
    ensures
        match r {
            Some((s, next)) => pos <= next <= data@.len() && parse_string(data@.skip(pos as int))
                == Some((s@, data@.skip(next as int))),
            None => parse_string(data@.skip(pos as int)) is None,
        },
{
    match dec_bytes(data, pos) {
        Some((b, next)) => match string_from_utf8(b) {
            Some(s) => Some((s, next)),
            None => None,
        },
        None => None,
    }
}

} // verus!
