use vstd::bytes::*;
use vstd::prelude::*;
use vstd::slice::*;
use vstd::utf8::*;

use crate::block::{BlockModel, BlockValidationResult, EthereumBlock, OutcomeModel, TimestampBounds};

verus! {

broadcast use {encode_utf8_valid_utf8, encode_utf8_decode_utf8};

// ---------------------------------------------------------------------------
// Wire layout
//
// Integers are 8 bytes little-endian; a string is its UTF-8 byte length as an
// integer followed by those bytes; a flag is one byte, 0 or 1. A record is its
// fields in declaration order; an outcome is its record followed by its three
// flags; the bound input of the attested computation is a record followed by
// the three timestamp bounds. A decoder accepts exactly the byte strings that
// the matching encoder produces: no trailing bytes, no other flag values.
// ---------------------------------------------------------------------------

pub open spec fn enc_u64(x: u64) -> Seq<u8> {
    spec_u64_to_le_bytes(x)
}

pub open spec fn enc_str(s: Seq<char>) -> Seq<u8> {
    enc_u64(encode_utf8(s).len() as u64) + encode_utf8(s)
}

pub open spec fn enc_bool(b: bool) -> Seq<u8> {
    seq![if b { 1u8 } else { 0u8 }]
}

pub open spec fn enc_block(m: BlockModel) -> Seq<u8> {
    enc_str(m.hash) + enc_str(m.parent_hash) + enc_u64(m.timestamp) + enc_u64(m.number)
        + enc_str(m.transactions_root)
}

pub open spec fn enc_outcome(o: OutcomeModel) -> Seq<u8> {
    enc_block(o.block) + enc_bool(o.is_valid_hash) + enc_bool(o.is_valid_timestamp) + enc_bool(
        o.is_valid_structure,
    )
}

pub open spec fn enc_input(m: BlockModel, b: TimestampBounds) -> Seq<u8> {
    enc_block(m) + enc_u64(b.lower_bound) + enc_u64(b.now) + enc_u64(b.max_skew)
}

/// Every string field's byte length fits in the 8-byte length prefix.
pub open spec fn block_encodable(m: BlockModel) -> bool {
    &&& encode_utf8(m.hash).len() <= u64::MAX
    &&& encode_utf8(m.parent_hash).len() <= u64::MAX
    &&& encode_utf8(m.transactions_root).len() <= u64::MAX
}

pub open spec fn parse_u64(b: Seq<u8>, p: int) -> Option<(u64, int)> {
    if 0 <= p && p + 8 <= b.len() {
        Some((spec_u64_from_le_bytes(b.subrange(p, p + 8)), p + 8))
    } else {
        None
    }
}

pub open spec fn parse_str(b: Seq<u8>, p: int) -> Option<(Seq<char>, int)> {
    match parse_u64(b, p) {
        Some((n, q)) => {
            if q + n <= b.len() && valid_utf8(b.subrange(q, q + n)) {
                Some((decode_utf8(b.subrange(q, q + n)), q + n))
            } else {
                None
            }
        },
        None => None,
    }
}

pub open spec fn parse_bool(b: Seq<u8>, p: int) -> Option<(bool, int)> {
    if 0 <= p < b.len() && b[p] <= 1 {
        Some((b[p] == 1, p + 1))
    } else {
        None
    }
}

pub open spec fn parse_block(b: Seq<u8>, p: int) -> Option<(BlockModel, int)> {
    match parse_str(b, p) {
        Some((hash, p1)) => match parse_str(b, p1) {
            Some((parent_hash, p2)) => match parse_u64(b, p2) {
                Some((timestamp, p3)) => match parse_u64(b, p3) {
                    Some((number, p4)) => match parse_str(b, p4) {
                        Some((transactions_root, p5)) => Some(
                            (
                                BlockModel {
                                    hash,
                                    parent_hash,
                                    timestamp,
                                    number,
                                    transactions_root,
                                },
                                p5,
                            ),
                        ),
                        None => None,
                    },
                    None => None,
                },
                None => None,
            },
            None => None,
        },
        None => None,
    }
}

pub open spec fn parse_outcome(b: Seq<u8>, p: int) -> Option<(OutcomeModel, int)> {
    match parse_block(b, p) {
        Some((block, p1)) => match parse_bool(b, p1) {
            Some((is_valid_hash, p2)) => match parse_bool(b, p2) {
                Some((is_valid_timestamp, p3)) => match parse_bool(b, p3) {
                    Some((is_valid_structure, p4)) => Some(
                        (
                            OutcomeModel {
                                block,
                                is_valid_hash,
                                is_valid_timestamp,
                                is_valid_structure,
                            },
                            p4,
                        ),
                    ),
                    None => None,
                },
                None => None,
            },
            None => None,
        },
        None => None,
    }
}

pub open spec fn parse_input(b: Seq<u8>, p: int) -> Option<(BlockModel, TimestampBounds, int)> {
    match parse_block(b, p) {
        Some((block, p1)) => match parse_u64(b, p1) {
            Some((lower_bound, p2)) => match parse_u64(b, p2) {
                Some((now, p3)) => match parse_u64(b, p3) {
                    Some((max_skew, p4)) => Some(
                        (block, TimestampBounds { lower_bound, now, max_skew }, p4),
                    ),
                    None => None,
                },
                None => None,
            },
            None => None,
        },
        None => None,
    }
}

/// The record that `b` encodes, if it encodes one with nothing left over.
pub open spec fn block_from_bytes(b: Seq<u8>) -> Option<BlockModel> {
    match parse_block(b, 0) {
        Some((m, e)) => if e == b.len() { Some(m) } else { None },
        None => None,
    }
}

/// The outcome that `b` encodes, if it encodes one with nothing left over.
pub open spec fn outcome_from_bytes(b: Seq<u8>) -> Option<OutcomeModel> {
    match parse_outcome(b, 0) {
        Some((o, e)) => if e == b.len() { Some(o) } else { None },
        None => None,
    }
}

/// The record and bounds that `b` encodes, if it encodes them with nothing left over.
pub open spec fn input_from_bytes(b: Seq<u8>) -> Option<(BlockModel, TimestampBounds)> {
    match parse_input(b, 0) {
        Some((m, t, e)) => if e == b.len() { Some((m, t)) } else { None },
        None => None,
    }
}

} // verus!

verus! {

proof fn lemma_window(b: Seq<u8>, p: int, whole: Seq<u8>, x: int, y: int)
    requires
        0 <= p,
        p + whole.len() <= b.len(),
        b.subrange(p, p + whole.len()) == whole,
        0 <= x <= y <= whole.len(),
    ensures
        b.subrange(p + x, p + y) == whole.subrange(x, y),
{
    assert(b.subrange(p + x, p + y) =~= b.subrange(p, p + whole.len()).subrange(x, y));
}

pub(crate) proof fn lemma_parse_u64_at(b: Seq<u8>, p: int, x: u64)
    requires
        0 <= p,
        p + 8 <= b.len(),
        b.subrange(p, p + 8) == enc_u64(x),
    ensures
        parse_u64(b, p) == Some((x, p + 8)),
{
    lemma_auto_spec_u64_to_from_le_bytes();
}

pub(crate) proof fn lemma_parse_str_at(b: Seq<u8>, p: int, s: Seq<char>)
    requires
        0 <= p,
        encode_utf8(s).len() <= u64::MAX,
        p + enc_str(s).len() <= b.len(),
        b.subrange(p, p + enc_str(s).len()) == enc_str(s),
    ensures
        parse_str(b, p) == Some((s, p + enc_str(s).len())),
{
    lemma_auto_spec_u64_to_from_le_bytes();
    let e = encode_utf8(s);
    let w = enc_str(s);
    let n = e.len() as int;
    assert(enc_u64(n as u64).len() == 8);
    assert(w.subrange(0, 8) =~= enc_u64(n as u64));
    assert(w.subrange(8, 8 + n) =~= e);
    lemma_window(b, p, w, 0, 8);
    lemma_window(b, p, w, 8, 8 + n);
    lemma_parse_u64_at(b, p, n as u64);
}

proof fn lemma_parse_bool_at(b: Seq<u8>, p: int, v: bool)
    requires
        0 <= p,
        p + 1 <= b.len(),
        b.subrange(p, p + 1) == enc_bool(v),
    ensures
        parse_bool(b, p) == Some((v, p + 1)),
{
    assert(b[p] == b.subrange(p, p + 1)[0]);
}

proof fn lemma_parse_block_at(b: Seq<u8>, p: int, m: BlockModel)
    requires
        0 <= p,
        block_encodable(m),
        p + enc_block(m).len() <= b.len(),
        b.subrange(p, p + enc_block(m).len()) == enc_block(m),
    ensures
        parse_block(b, p) == Some((m, p + enc_block(m).len())),
{
    lemma_auto_spec_u64_to_from_le_bytes();
    let w = enc_block(m);
    let a = enc_str(m.hash);
    let c = enc_str(m.parent_hash);
    let d = enc_u64(m.timestamp);
    let e = enc_u64(m.number);
    let f = enc_str(m.transactions_root);
    let i1 = a.len() as int;
    let i2 = i1 + c.len() as int;
    let i3 = i2 + 8;
    let i4 = i3 + 8;
    assert(w.subrange(0, i1) =~= a);
    assert(w.subrange(i1, i2) =~= c);
    assert(w.subrange(i2, i3) =~= d);
    assert(w.subrange(i3, i4) =~= e);
    assert(w.subrange(i4, w.len() as int) =~= f);
    lemma_window(b, p, w, 0, i1);
    lemma_window(b, p, w, i1, i2);
    lemma_window(b, p, w, i2, i3);
    lemma_window(b, p, w, i3, i4);
    lemma_window(b, p, w, i4, w.len() as int);
    lemma_parse_str_at(b, p, m.hash);
    lemma_parse_str_at(b, p + i1, m.parent_hash);
    lemma_parse_u64_at(b, p + i2, m.timestamp);
    lemma_parse_u64_at(b, p + i3, m.number);
    lemma_parse_str_at(b, p + i4, m.transactions_root);
}

/// Decoding the encoding of a record gives back that record.
pub proof fn lemma_block_round_trip(m: BlockModel)
    requires
        block_encodable(m),
    ensures
        block_from_bytes(enc_block(m)) == Some(m),
{
    let w = enc_block(m);
    assert(w.subrange(0, w.len() as int) =~= w);
    lemma_parse_block_at(w, 0, m);
}

/// Decoding the encoding of an outcome gives back that outcome.
pub proof fn lemma_outcome_round_trip(o: OutcomeModel)
    requires
        block_encodable(o.block),
    ensures
        outcome_from_bytes(enc_outcome(o)) == Some(o),
{
    let w = enc_outcome(o);
    let k = enc_block(o.block).len() as int;
    assert(w.subrange(0, k) =~= enc_block(o.block));
    assert(w.subrange(k, k + 1) =~= enc_bool(o.is_valid_hash));
    assert(w.subrange(k + 1, k + 2) =~= enc_bool(o.is_valid_timestamp));
    assert(w.subrange(k + 2, k + 3) =~= enc_bool(o.is_valid_structure));
    assert(w.subrange(0, w.len() as int) =~= w);
    lemma_window(w, 0, w, 0, k);
    lemma_parse_block_at(w, 0, o.block);
    lemma_parse_bool_at(w, k, o.is_valid_hash);
    lemma_parse_bool_at(w, k + 1, o.is_valid_timestamp);
    lemma_parse_bool_at(w, k + 2, o.is_valid_structure);
}

/// Decoding the encoding of a bound input gives back its record and bounds.
pub proof fn lemma_input_round_trip(m: BlockModel, t: TimestampBounds)
    requires
        block_encodable(m),
    ensures
        input_from_bytes(enc_input(m, t)) == Some((m, t)),
{
    lemma_auto_spec_u64_to_from_le_bytes();
    let w = enc_input(m, t);
    let k = enc_block(m).len() as int;
    assert(w.subrange(0, k) =~= enc_block(m));
    assert(w.subrange(k, k + 8) =~= enc_u64(t.lower_bound));
    assert(w.subrange(k + 8, k + 16) =~= enc_u64(t.now));
    assert(w.subrange(k + 16, k + 24) =~= enc_u64(t.max_skew));
    assert(w.subrange(0, w.len() as int) =~= w);
    lemma_window(w, 0, w, 0, k);
    lemma_parse_block_at(w, 0, m);
    lemma_parse_u64_at(w, k, t.lower_bound);
    lemma_parse_u64_at(w, k + 8, t.now);
    lemma_parse_u64_at(w, k + 16, t.max_skew);
}

} // verus!

verus! {

/// Relies on `String::from_utf8`: it accepts exactly the valid UTF-8 byte
/// strings and yields the characters they spell.
#[verifier::external_body]
fn string_from_utf8(v: Vec<u8>) -> (r: Option<String>)
    ensures
        r is Some <==> valid_utf8(v@),
        r matches Some(s) ==> s@ == decode_utf8(v@),
{
    String::from_utf8(v).ok()
}

/// The UTF-8 byte length of `s`, which the platform bounds.
pub(crate) fn utf8_len(s: &String) -> (n: usize)
    ensures
        n == encode_utf8(s@).len(),
{
    s.as_str().as_bytes().len()
}

pub(crate) fn write_u64(out: &mut Vec<u8>, x: u64)
    ensures
        final(out)@ == old(out)@ + enc_u64(x),
{
    let mut b = u64_to_le_bytes(x);
    out.append(&mut b);
}

pub(crate) fn write_str(out: &mut Vec<u8>, s: &String)
    ensures
        final(out)@ == old(out)@ + enc_str(s@),
{
    let bytes = s.as_str().as_bytes();
    write_u64(out, bytes.len() as u64);
    let mut v = slice_to_vec(bytes);
    out.append(&mut v);
}

fn write_bool(out: &mut Vec<u8>, v: bool)
    ensures
        final(out)@ == old(out)@ + enc_bool(v),
{
    out.push(if v { 1u8 } else { 0u8 });
    assert(final(out)@ =~= old(out)@ + enc_bool(v));
}

fn write_block(out: &mut Vec<u8>, block: &EthereumBlock)
    ensures
        final(out)@ == old(out)@ + enc_block(block@),
{
    let ghost start = out@;
    write_str(out, &block.hash);
    write_str(out, &block.parent_hash);
    write_u64(out, block.timestamp);
    write_u64(out, block.number);
    write_str(out, &block.transactions_root);
    assert(out@ =~= start + enc_block(block@));
}

/// The wire form of a record.
pub fn encode_block(block: &EthereumBlock) -> (r: Vec<u8>)
    ensures
        r@ == enc_block(block@),
{
    let mut out: Vec<u8> = Vec::new();
    write_block(&mut out, block);
    assert(out@ =~= enc_block(block@));
    out
}

/// The wire form of an outcome; it is what the attested computation commits.
pub fn encode_outcome(outcome: &BlockValidationResult) -> (r: Vec<u8>)
    ensures
        r@ == enc_outcome(outcome@),
{
    let mut out: Vec<u8> = Vec::new();
    write_block(&mut out, &outcome.block);
    write_bool(&mut out, outcome.is_valid_hash);
    write_bool(&mut out, outcome.is_valid_timestamp);
    write_bool(&mut out, outcome.is_valid_structure);
    assert(out@ =~= enc_outcome(outcome@));
    out
}

/// The wire form of the bound input: the record and the timestamp window.
pub fn encode_input(block: &EthereumBlock, bounds: &TimestampBounds) -> (r: Vec<u8>)
    ensures
        r@ == enc_input(block@, *bounds),
{
    let mut out: Vec<u8> = Vec::new();
    write_block(&mut out, block);
    write_u64(&mut out, bounds.lower_bound);
    write_u64(&mut out, bounds.now);
    write_u64(&mut out, bounds.max_skew);
    assert(out@ =~= enc_input(block@, *bounds));
    out
}

pub(crate) fn read_u64(buf: &[u8], pos: usize) -> (r: Option<(u64, usize)>)
    ensures
        match r {
            Some((x, q)) => parse_u64(buf@, pos as int) == Some((x, q as int)),
            None => parse_u64(buf@, pos as int) is None,
        },
{
    if pos <= buf.len() && buf.len() - pos >= 8 {
        let x = u64_from_le_bytes(slice_subrange(buf, pos, pos + 8));
        Some((x, pos + 8))
    } else {
        None
    }
}

pub(crate) fn read_str(buf: &[u8], pos: usize) -> (r: Option<(String, usize)>)
    ensures
        match r {
            Some((s, q)) => parse_str(buf@, pos as int) == Some((s@, q as int)),
            None => parse_str(buf@, pos as int) is None,
        },
{
    match read_u64(buf, pos) {
        Some((n, q)) => {
            if n > (buf.len() - q) as u64 {
                return None;
            }
            let end = q + n as usize;
            let bytes = slice_to_vec(slice_subrange(buf, q, end));
            match string_from_utf8(bytes) {
                Some(s) => Some((s, end)),
                None => None,
            }
        },
        None => None,
    }
}

fn read_bool(buf: &[u8], pos: usize) -> (r: Option<(bool, usize)>)
    ensures
        match r {
            Some((v, q)) => parse_bool(buf@, pos as int) == Some((v, q as int)),
            None => parse_bool(buf@, pos as int) is None,
        },
{
    if pos < buf.len() && buf[pos] <= 1 {
        Some((buf[pos] == 1, pos + 1))
    } else {
        None
    }
}

fn read_block(buf: &[u8], pos: usize) -> (r: Option<(EthereumBlock, usize)>)
    ensures
        match r {
            Some((x, q)) => parse_block(buf@, pos as int) == Some((x@, q as int)),
            None => parse_block(buf@, pos as int) is None,
        },
{
    let (hash, p1) = match read_str(buf, pos) {
        Some(v) => v,
        None => return None,
    };
    let (parent_hash, p2) = match read_str(buf, p1) {
        Some(v) => v,
        None => return None,
    };
    let (timestamp, p3) = match read_u64(buf, p2) {
        Some(v) => v,
        None => return None,
    };
    let (number, p4) = match read_u64(buf, p3) {
        Some(v) => v,
        None => return None,
    };
    let (transactions_root, p5) = match read_str(buf, p4) {
        Some(v) => v,
        None => return None,
    };
    Some((EthereumBlock { hash, parent_hash, timestamp, number, transactions_root }, p5))
}

/// Decodes a record; fails on anything but the exact wire form of one.
pub fn decode_block(bytes: &[u8]) -> (r: Option<EthereumBlock>)
    ensures
        match r {
            Some(x) => block_from_bytes(bytes@) == Some(x@),
            None => block_from_bytes(bytes@) is None,
        },
        r matches Some(x) ==> bytes@ == enc_block(x@),
{
    proof {
        if block_from_bytes(bytes@) is Some {
            lemma_block_canonical(bytes@);
        }
    }
    match read_block(bytes, 0) {
        Some((x, e)) => if e == bytes.len() { Some(x) } else { None },
        None => None,
    }
}

/// Decodes an outcome; fails on anything but the exact wire form of one.
pub fn decode_outcome(bytes: &[u8]) -> (r: Option<BlockValidationResult>)
    ensures
        match r {
            Some(x) => outcome_from_bytes(bytes@) == Some(x@),
            None => outcome_from_bytes(bytes@) is None,
        },
        r matches Some(x) ==> bytes@ == enc_outcome(x@),
{
    proof {
        if outcome_from_bytes(bytes@) is Some {
            lemma_outcome_canonical(bytes@);
        }
    }
    let (block, p1) = match read_block(bytes, 0) {
        Some(v) => v,
        None => return None,
    };
    let (is_valid_hash, p2) = match read_bool(bytes, p1) {
        Some(v) => v,
        None => return None,
    };
    let (is_valid_timestamp, p3) = match read_bool(bytes, p2) {
        Some(v) => v,
        None => return None,
    };
    let (is_valid_structure, p4) = match read_bool(bytes, p3) {
        Some(v) => v,
        None => return None,
    };
    if p4 != bytes.len() {
        return None;
    }
    Some(BlockValidationResult { block, is_valid_hash, is_valid_timestamp, is_valid_structure })
}

/// Decodes the bound input; fails on anything but the exact wire form of one.
pub fn decode_input(bytes: &[u8]) -> (r: Option<(EthereumBlock, TimestampBounds)>)
    ensures
        match r {
            Some((x, t)) => input_from_bytes(bytes@) == Some((x@, t)),
            None => input_from_bytes(bytes@) is None,
        },
        r matches Some((x, t)) ==> bytes@ == enc_input(x@, t),
{
    proof {
        if input_from_bytes(bytes@) is Some {
            lemma_input_canonical(bytes@);
        }
    }
    let (block, p1) = match read_block(bytes, 0) {
        Some(v) => v,
        None => return None,
    };
    let (lower_bound, p2) = match read_u64(bytes, p1) {
        Some(v) => v,
        None => return None,
    };
    let (now, p3) = match read_u64(bytes, p2) {
        Some(v) => v,
        None => return None,
    };
    let (max_skew, p4) = match read_u64(bytes, p3) {
        Some(v) => v,
        None => return None,
    };
    if p4 != bytes.len() {
        return None;
    }
    Some((block, TimestampBounds { lower_bound, now, max_skew }))
}

} // verus!

verus! {

proof fn lemma_split(b: Seq<u8>, p: int, q: int, r: int)
    requires
        0 <= p <= q <= r <= b.len(),
    ensures
        b.subrange(p, r) == b.subrange(p, q) + b.subrange(q, r),
{
    assert(b.subrange(p, r) =~= b.subrange(p, q) + b.subrange(q, r));
}

pub(crate) proof fn lemma_u64_parsed(b: Seq<u8>, p: int)
    requires
        parse_u64(b, p) is Some,
    ensures
        parse_u64(b, p) matches Some((x, q)) && q == p + 8 && q <= b.len() && b.subrange(p, q)
            == enc_u64(x),
{
    lemma_auto_spec_u64_to_from_le_bytes();
}

pub(crate) proof fn lemma_str_parsed(b: Seq<u8>, p: int)
    requires
        parse_str(b, p) is Some,
    ensures
        parse_str(b, p) matches Some((s, q)) && p + 8 <= q <= b.len() && b.subrange(p, q)
            == enc_str(s) && encode_utf8(s).len() <= u64::MAX,
{
    lemma_u64_parsed(b, p);
    let (n, q0) = parse_u64(b, p).unwrap();
    let sub = b.subrange(q0, q0 + n);
    let s = decode_utf8(sub);
    decode_utf8_encode_utf8(sub);
    assert(encode_utf8(s) == sub);
    lemma_split(b, p, q0, q0 + n);
}

proof fn lemma_bool_parsed(b: Seq<u8>, p: int)
    requires
        parse_bool(b, p) is Some,
    ensures
        parse_bool(b, p) matches Some((v, q)) && q == p + 1 && q <= b.len() && b.subrange(p, q)
            == enc_bool(v),
{
    let (v, q) = parse_bool(b, p).unwrap();
    assert(b.subrange(p, q) =~= enc_bool(v));
}

proof fn lemma_block_parsed(b: Seq<u8>, p: int)
    requires
        parse_block(b, p) is Some,
    ensures
        parse_block(b, p) matches Some((m, q)) && p <= q <= b.len() && b.subrange(p, q)
            == enc_block(m) && block_encodable(m),
{
    lemma_str_parsed(b, p);
    let (_, p1) = parse_str(b, p).unwrap();
    lemma_str_parsed(b, p1);
    let (_, p2) = parse_str(b, p1).unwrap();
    lemma_u64_parsed(b, p2);
    let (_, p3) = parse_u64(b, p2).unwrap();
    lemma_u64_parsed(b, p3);
    let (_, p4) = parse_u64(b, p3).unwrap();
    lemma_str_parsed(b, p4);
    let (m, p5) = parse_block(b, p).unwrap();
    lemma_split(b, p, p1, p5);
    lemma_split(b, p1, p2, p5);
    lemma_split(b, p2, p3, p5);
    lemma_split(b, p3, p4, p5);
    assert(b.subrange(p, p5) =~= enc_block(m));
}

proof fn lemma_outcome_parsed(b: Seq<u8>, p: int)
    requires
        parse_outcome(b, p) is Some,
    ensures
        parse_outcome(b, p) matches Some((o, q)) && p <= q <= b.len() && b.subrange(p, q)
            == enc_outcome(o),
{
    lemma_block_parsed(b, p);
    let (_, p1) = parse_block(b, p).unwrap();
    lemma_bool_parsed(b, p1);
    let (_, p2) = parse_bool(b, p1).unwrap();
    lemma_bool_parsed(b, p2);
    let (_, p3) = parse_bool(b, p2).unwrap();
    lemma_bool_parsed(b, p3);
    let (o, p4) = parse_outcome(b, p).unwrap();
    lemma_split(b, p, p1, p4);
    lemma_split(b, p1, p2, p4);
    lemma_split(b, p2, p3, p4);
    assert(b.subrange(p, p4) =~= enc_outcome(o));
}

proof fn lemma_input_parsed(b: Seq<u8>, p: int)
    requires
        parse_input(b, p) is Some,
    ensures
        parse_input(b, p) matches Some((m, t, q)) && p <= q <= b.len() && b.subrange(p, q)
            == enc_input(m, t),
{
    lemma_block_parsed(b, p);
    let (_, p1) = parse_block(b, p).unwrap();
    lemma_u64_parsed(b, p1);
    let (_, p2) = parse_u64(b, p1).unwrap();
    lemma_u64_parsed(b, p2);
    let (_, p3) = parse_u64(b, p2).unwrap();
    lemma_u64_parsed(b, p3);
    let (m, t, p4) = parse_input(b, p).unwrap();
    lemma_split(b, p, p1, p4);
    lemma_split(b, p1, p2, p4);
    lemma_split(b, p2, p3, p4);
    assert(b.subrange(p, p4) =~= enc_input(m, t));
}

/// The record decoder accepts only encodings: bytes that decode to a record
/// are exactly that record's encoding.
pub proof fn lemma_block_canonical(b: Seq<u8>)
    requires
        block_from_bytes(b) is Some,
    ensures
        block_from_bytes(b) matches Some(m) && b == enc_block(m) && block_encodable(m),
{
    lemma_block_parsed(b, 0);
    assert(b.subrange(0, b.len() as int) =~= b);
}

/// The outcome decoder accepts only encodings: bytes that decode to an
/// outcome are exactly that outcome's encoding.
pub proof fn lemma_outcome_canonical(b: Seq<u8>)
    requires
        outcome_from_bytes(b) is Some,
    ensures
        outcome_from_bytes(b) matches Some(o) && b == enc_outcome(o),
{
    lemma_outcome_parsed(b, 0);
    assert(b.subrange(0, b.len() as int) =~= b);
}

/// The input decoder accepts only encodings: bytes that decode to a record
/// and window are exactly their encoding.
pub proof fn lemma_input_canonical(b: Seq<u8>)
    requires
        input_from_bytes(b) is Some,
    ensures
        input_from_bytes(b) matches Some((m, t)) && b == enc_input(m, t),
{
    lemma_input_parsed(b, 0);
    assert(b.subrange(0, b.len() as int) =~= b);
}

} // verus!
