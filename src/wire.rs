//! Byte-level pieces of the persisted format: little-endian integers, flags
//! and length-prefixed UTF-8 text, each with a writer and a reader.

use vstd::prelude::*;
use vstd::utf8::{decode_utf8, encode_utf8, valid_utf8};

verus! {

broadcast use vstd::utf8::encode_utf8_valid_utf8, vstd::utf8::encode_utf8_decode_utf8;

/// `piece` stands in `b` from position `pos` on.
pub open spec fn at(b: Seq<u8>, pos: int, piece: Seq<u8>) -> bool {
    &&& 0 <= pos
    &&& pos + piece.len() <= b.len()
    &&& b.subrange(pos, pos + piece.len()) == piece
}

/// Two pieces stand one after the other exactly when their concatenation stands.
pub proof fn lemma_at_concat(b: Seq<u8>, pos: int, x: Seq<u8>, y: Seq<u8>)
    ensures
        at(b, pos, x + y) <==> (at(b, pos, x) && at(b, pos + x.len(), y)),
{
    if at(b, pos, x + y) {
        let w = b.subrange(pos, pos + x.len() + y.len());
        assert(w =~= x + y);
        assert(b.subrange(pos, pos + x.len()) =~= w.subrange(0, x.len() as int));
        assert(w.subrange(0, x.len() as int) =~= x);
        assert(b.subrange(pos + x.len(), pos + x.len() + y.len()) =~= w.subrange(
            x.len() as int,
            (x.len() + y.len()) as int,
        ));
        assert(w.subrange(x.len() as int, (x.len() + y.len()) as int) =~= y);
    }
    if at(b, pos, x) && at(b, pos + x.len(), y) {
        assert(b.subrange(pos, pos + (x + y).len()) =~= x + y);
    }
}

/// The eight bytes of `v`, least significant first.
pub open spec fn le64(v: u64) -> Seq<u8> {
    seq![
        v as u8,
        (v >> 8u64) as u8,
        (v >> 16u64) as u8,
        (v >> 24u64) as u8,
        (v >> 32u64) as u8,
        (v >> 40u64) as u8,
        (v >> 48u64) as u8,
        (v >> 56u64) as u8,
    ]
}

/// The byte that stands for a flag.
pub open spec fn flag_byte(f: bool) -> u8 {
    if f {
        1
    } else {
        0
    }
}

/// A string as its byte length followed by its UTF-8 bytes.
pub open spec fn enc_text(s: Seq<char>) -> Seq<u8> {
    le64(encode_utf8(s).len() as u64) + encode_utf8(s)
}

pub proof fn lemma_le64_injective(v: u64, w: u64)
    requires
        le64(v) == le64(w),
    ensures
        v == w,
{
    assert(le64(v)[0] == le64(w)[0]);
    assert(le64(v)[1] == le64(w)[1]);
    assert(le64(v)[2] == le64(w)[2]);
    assert(le64(v)[3] == le64(w)[3]);
    assert(le64(v)[4] == le64(w)[4]);
    assert(le64(v)[5] == le64(w)[5]);
    assert(le64(v)[6] == le64(w)[6]);
    assert(le64(v)[7] == le64(w)[7]);
    assert(v == w) by (bit_vector)
        requires
            v as u8 == w as u8,
            (v >> 8u64) as u8 == (w >> 8u64) as u8,
            (v >> 16u64) as u8 == (w >> 16u64) as u8,
            (v >> 24u64) as u8 == (w >> 24u64) as u8,
            (v >> 32u64) as u8 == (w >> 32u64) as u8,
            (v >> 40u64) as u8 == (w >> 40u64) as u8,
            (v >> 48u64) as u8 == (w >> 48u64) as u8,
            (v >> 56u64) as u8 == (w >> 56u64) as u8,
    ;
}

pub fn write_u8(out: &mut Vec<u8>, v: u8)
    ensures
        final(out)@ == old(out)@ + seq![v],
{
    out.push(v);
    assert(out@ =~= old(out)@ + seq![v]);
}

pub fn write_u64(out: &mut Vec<u8>, v: u64)
    ensures
        final(out)@ == old(out)@ + le64(v),
{
    out.push(v as u8);
    out.push((v >> 8u64) as u8);
    out.push((v >> 16u64) as u8);
    out.push((v >> 24u64) as u8);
    out.push((v >> 32u64) as u8);
    out.push((v >> 40u64) as u8);
    out.push((v >> 48u64) as u8);
    out.push((v >> 56u64) as u8);
    assert(out@ =~= old(out)@ + le64(v));
}

pub fn write_flag(out: &mut Vec<u8>, f: bool)
    ensures
        final(out)@ == old(out)@ + seq![flag_byte(f)],
{
    write_u8(out, if f { 1 } else { 0 });
}

/// Append the raw bytes of `b`.
pub fn write_bytes(out: &mut Vec<u8>, b: &[u8])
    ensures
        final(out)@ == old(out)@ + b@,
{
    let mut i: usize = 0;
    while i < b.len()
        invariant
            0 <= i <= b.len(),
            out@ == old(out)@ + b@.take(i as int),
        decreases b.len() - i,
    {
        out.push(b[i]);
        assert(b@.take(i + 1) =~= b@.take(i as int).push(b@[i as int]));
        assert(out@ =~= old(out)@ + b@.take(i + 1));
        i = i + 1;
    }
    assert(b@.take(i as int) =~= b@);
}

pub fn write_text(out: &mut Vec<u8>, s: &String)
    ensures
        final(out)@ == old(out)@ + enc_text(s@),
{
    let bytes = s.as_str().as_bytes();
    write_u64(out, bytes.len() as u64);
    write_bytes(out, bytes);
    assert(out@ =~= old(out)@ + enc_text(s@));
}

pub fn read_u8(b: &[u8], pos: usize) -> (r: Option<(u8, usize)>)
    ensures
        r is None <==> pos >= b@.len(),
        r matches Some((v, p)) ==> at(b@, pos as int, seq![v]) && p == pos + 1,
        forall|v: u8| #[trigger] at(b@, pos as int, seq![v]) ==> (r is Some && r.unwrap().0 == v),
{
    if pos >= b.len() {
        return None;
    }
    let v = b[pos];
    assert(b@.subrange(pos as int, pos + 1) =~= seq![v]);
    assert forall|w: u8| #[trigger] at(b@, pos as int, seq![w]) implies w == v by {
        assert(b@.subrange(pos as int, pos + 1)[0] == w);
    }
    Some((v, pos + 1))
}

pub fn read_u64(b: &[u8], pos: usize) -> (r: Option<(u64, usize)>)
    ensures
        r is None <==> pos + 8 > b@.len(),
        r matches Some((v, p)) ==> at(b@, pos as int, le64(v)) && p == pos + 8,
        forall|v: u64| #[trigger] at(b@, pos as int, le64(v)) ==> (r is Some && r.unwrap().0 == v),
{
    if pos > b.len() || b.len() - pos < 8 {
        return None;
    }
    let b0 = b[pos];
    let b1 = b[pos + 1];
    let b2 = b[pos + 2];
    let b3 = b[pos + 3];
    let b4 = b[pos + 4];
    let b5 = b[pos + 5];
    let b6 = b[pos + 6];
    let b7 = b[pos + 7];
    let v: u64 = (b0 as u64) | ((b1 as u64) << 8u64) | ((b2 as u64) << 16u64) | ((b3 as u64)
        << 24u64) | ((b4 as u64) << 32u64) | ((b5 as u64) << 40u64) | ((b6 as u64) << 48u64) | ((
    b7 as u64) << 56u64);
    assert(v as u8 == b0 && (v >> 8u64) as u8 == b1 && (v >> 16u64) as u8 == b2 && (v >> 24u64) as u8
        == b3 && (v >> 32u64) as u8 == b4 && (v >> 40u64) as u8 == b5 && (v >> 48u64) as u8 == b6
        && (v >> 56u64) as u8 == b7) by (bit_vector)
        requires
            v == (b0 as u64) | ((b1 as u64) << 8u64) | ((b2 as u64) << 16u64) | ((b3 as u64)
                << 24u64) | ((b4 as u64) << 32u64) | ((b5 as u64) << 40u64) | ((b6 as u64)
                << 48u64) | ((b7 as u64) << 56u64),
    ;
    assert(b@.subrange(pos as int, pos + 8) =~= le64(v));
    assert forall|w: u64| #[trigger] at(b@, pos as int, le64(w)) implies w == v by {
        lemma_le64_injective(v, w);
    }
    Some((v, pos + 8))
}

pub fn read_flag(b: &[u8], pos: usize) -> (r: Option<(bool, usize)>)
    ensures
        r matches Some((f, p)) ==> at(b@, pos as int, seq![flag_byte(f)]) && p == pos + 1,
        forall|f: bool| #[trigger] at(b@, pos as int, seq![flag_byte(f)]) ==> (r is Some && r.unwrap().0 == f),
{
    match read_u8(b, pos) {
        None => None,
        Some((v, p)) => {
            if v == 0 {
                Some((false, p))
            } else if v == 1 {
                Some((true, p))
            } else {
                assert forall|f: bool| !#[trigger] at(b@, pos as int, seq![flag_byte(f)]) by {
                    if at(b@, pos as int, seq![flag_byte(f)]) {
                        assert(seq![v][0] == seq![flag_byte(f)][0]);
                    }
                }
                None
            }
        },
    }
}

/// Relies on `std::str::from_utf8`: it accepts exactly the well-formed UTF-8
/// byte sequences, and the text it gives back has those bytes.
#[verifier::external_body]
fn text_from_utf8(b: &[u8]) -> (r: Option<String>)
    ensures
        r is Some <==> valid_utf8(b@),
        r matches Some(s) ==> s@ == decode_utf8(b@),
{
    std::str::from_utf8(b).ok().map(|s| s.to_string())
}

pub fn read_text(b: &[u8], pos: usize) -> (r: Option<(String, usize)>)
    ensures
        r matches Some((s, p)) ==> at(b@, pos as int, enc_text(s@)) && p == pos + enc_text(s@).len(),
        forall|s: Seq<char>| #[trigger] at(b@, pos as int, enc_text(s)) ==> (r is Some && r.unwrap().0@ == s),
{
    let blen = b.len();
    let (n, at1) = match read_u64(b, pos) {
        None => {
            assert forall|s: Seq<char>| !#[trigger] at(b@, pos as int, enc_text(s)) by {}
            return None;
        },
        Some(x) => x,
    };
    assert forall|s: Seq<char>| #[trigger] at(b@, pos as int, enc_text(s)) implies
        n == encode_utf8(s).len() && at(b@, at1 as int, encode_utf8(s)) by {
        lemma_at_concat(b@, pos as int, le64(encode_utf8(s).len() as u64), encode_utf8(s));
        assert(encode_utf8(s).len() <= blen);
        assert((encode_utf8(s).len() as u64) as int == encode_utf8(s).len());
    }
    if n > (b.len() - at1) as u64 {
        return None;
    }
    let end = at1 + n as usize;
    let piece = vstd::slice::slice_subrange(b, at1, end);
    match text_from_utf8(piece) {
        None => None,
        Some(s) => {
            proof {
                vstd::utf8::decode_utf8_encode_utf8(piece@);
                assert(encode_utf8(s@) == piece@);
                lemma_at_concat(b@, pos as int, le64(n), encode_utf8(s@));
            }
            Some((s, end))
        },
    }
}

} // verus!
