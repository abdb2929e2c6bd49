//! The binary form of a path: one byte that counts the segments, then the
//! raw word of each segment in four bytes, most significant byte first.

use byteorder::{BigEndian, WriteBytesExt};
use vstd::prelude::*;
use crate::errors::Error;
use crate::path_value::{all_wf, valid_path, PathValue};

verus! {

/// The four bytes of a word, most significant first.
pub open spec fn be_bytes(w: u32) -> Seq<u8> {
    seq![
        (w / 0x1000000) as u8,
        (w / 0x10000 % 0x100) as u8,
        (w / 0x100 % 0x100) as u8,
        (w % 0x100) as u8,
    ]
}

/// The word that four bytes stand for, most significant first.
pub open spec fn be_word(b: Seq<u8>) -> u32
    recommends
        b.len() == 4,
{
    (b[0] * 0x1000000 + b[1] * 0x10000 + b[2] * 0x100 + b[3]) as u32
}

/// The raw words of the segments of `p`, in order, four bytes each.
pub open spec fn words_bytes(p: Seq<PathValue>) -> Seq<u8>
    decreases p.len(),
{
    if p.len() == 0 {
        Seq::empty()
    } else {
        words_bytes(p.drop_last()) + be_bytes(p.last().raw())
    }
}

/// The binary form of a path of at most 255 segments.
pub open spec fn encode_path(p: Seq<PathValue>) -> Seq<u8>
    recommends
        valid_path(p),
{
    seq![p.len() as u8] + words_bytes(p)
}

/// The segment that stands at place `i` of a buffer.
pub open spec fn decode_segment(b: Seq<u8>, i: int) -> PathValue {
    PathValue::of_raw(be_word(b.subrange(1 + 4 * i, 5 + 4 * i)))
}

/// Whether a buffer has the layout of a path: a count, and four bytes for
/// each segment counted, no more and no less.
pub open spec fn has_layout(b: Seq<u8>) -> bool {
    b.len() > 0 && b.len() == 1 + 4 * b[0]
}

/// The path that a buffer stands for. Every word stands for a segment, so
/// only the layout can be wrong.
pub open spec fn decode_path(b: Seq<u8>) -> Result<Seq<PathValue>, Error> {
    if has_layout(b) {
        Ok(Seq::new(b[0] as nat, |i: int| decode_segment(b, i)))
    } else {
        Err(Error::InvalidFormat)
    }
}

/// A word is found again from its four bytes.
pub proof fn lemma_be_word_of_bytes(w: u32)
    ensures
        be_bytes(w).len() == 4,
        be_word(be_bytes(w)) == w,
{
    assert(((w / 0x1000000) as u8) as u32 * 0x1000000 + ((w / 0x10000 % 0x100) as u8) as u32
        * 0x10000 + ((w / 0x100 % 0x100) as u8) as u32 * 0x100 + ((w % 0x100) as u8) as u32 == w)
        by (bit_vector);
}

/// Four bytes are found again from their word.
pub proof fn lemma_be_bytes_of_word(b: Seq<u8>)
    requires
        b.len() == 4,
    ensures
        be_bytes(be_word(b)) == b,
{
    let b0 = b[0];
    let b1 = b[1];
    let b2 = b[2];
    let b3 = b[3];
    let w = be_word(b);
    assert(w == (b0 as u32) * 0x1000000 + (b1 as u32) * 0x10000 + (b2 as u32) * 0x100 + (b3 as u32));
    assert((w / 0x1000000) as u8 == b0 && (w / 0x10000 % 0x100) as u8 == b1 && (w / 0x100 % 0x100)
        as u8 == b2 && (w % 0x100) as u8 == b3) by (bit_vector)
        requires
            w == (b0 as u32) * 0x1000000 + (b1 as u32) * 0x10000 + (b2 as u32) * 0x100 + (
            b3 as u32),
    ;
    assert(be_bytes(w) =~= b);
}

/// The words of a path take four bytes for each segment, and the bytes of
/// the segment at place `i` stand at `4 * i`.
pub proof fn lemma_words_bytes_at(p: Seq<PathValue>, i: int)
    requires
        0 <= i < p.len(),
    ensures
        words_bytes(p).len() == 4 * p.len(),
        words_bytes(p).subrange(4 * i, 4 * i + 4) == be_bytes(p[i].raw()),
    decreases p.len(),
{
    lemma_words_bytes_len(p.drop_last());
    if i < p.len() - 1 {
        lemma_words_bytes_at(p.drop_last(), i);
        assert(words_bytes(p).subrange(4 * i, 4 * i + 4) =~= words_bytes(p.drop_last()).subrange(
            4 * i,
            4 * i + 4,
        ));
    } else {
        assert(words_bytes(p).subrange(4 * i, 4 * i + 4) =~= be_bytes(p[i].raw()));
    }
}

/// The words of a path take four bytes for each segment.
pub proof fn lemma_words_bytes_len(p: Seq<PathValue>)
    ensures
        words_bytes(p).len() == 4 * p.len(),
    decreases p.len(),
{
    if p.len() > 0 {
        lemma_words_bytes_len(p.drop_last());
    }
}

/// The binary round trip: a path of at most 255 segments, each within
/// range, is decoded from its binary form as itself.
pub proof fn lemma_codec_round_trip(p: Seq<PathValue>)
    requires
        valid_path(p),
    ensures
        has_layout(encode_path(p)),
        decode_path(encode_path(p)) == Ok::<Seq<PathValue>, Error>(p),
{
    let b = encode_path(p);
    lemma_words_bytes_len(p);
    assert(b[0] == p.len());
    let d = Seq::new(b[0] as nat, |i: int| decode_segment(b, i));
    assert forall|i: int| 0 <= i < p.len() implies d[i] == p[i] by {
        lemma_words_bytes_at(p, i);
        assert(b.subrange(1 + 4 * i, 5 + 4 * i) =~= words_bytes(p).subrange(4 * i, 4 * i + 4));
        lemma_be_word_of_bytes(p[i].raw());
        assert(p[i].wf());
    }
    assert(d =~= p);
}

/// A buffer with the layout of a path is the binary form of the path it
/// stands for, so no two buffers stand for the same path.
pub proof fn lemma_decode_then_encode(b: Seq<u8>)
    requires
        has_layout(b),
    ensures
        valid_path(decode_path(b)->Ok_0),
        encode_path(decode_path(b)->Ok_0) == b,
{
    let p = decode_path(b)->Ok_0;
    assert(all_wf(p));
    lemma_words_bytes_len(p);
    let e = encode_path(p);
    assert forall|j: int| 0 <= j < b.len() implies e[j] == b[j] by {
        if j > 0 {
            let i = (j - 1) / 4;
            let k = (j - 1) % 4;
            lemma_words_bytes_at(p, i);
            let chunk = b.subrange(1 + 4 * i, 5 + 4 * i);
            lemma_be_bytes_of_word(chunk);
            assert(p[i].raw() == be_word(chunk));
            assert(words_bytes(p).subrange(4 * i, 4 * i + 4)[k] == words_bytes(p)[4 * i + k]);
            assert(chunk[k] == b[1 + 4 * i + k]);
        }
    }
    assert(e =~= b);
}

/// Appends the four bytes of `w`, most significant first, to `buf`.
///
/// This is `byteorder::WriteBytesExt::write_u32::<BigEndian>` on a vector.
/// It is believed, not proved, that the call leaves what `buf` held in
/// place and puts exactly those four bytes behind it. Writing to a vector
/// does not fail.
#[verifier::external_body]
pub(crate) fn append_word(buf: &mut Vec<u8>, w: u32)
    ensures
        final(buf)@ == old(buf)@ + be_bytes(w),
{
    buf.write_u32::<BigEndian>(w).unwrap();
}

/// Reads the word that stands in the four bytes of `buf` from `at` on.
pub fn read_word(buf: &[u8], at: usize) -> (w: u32)
    requires
        at + 4 <= buf@.len(),
    ensures
        w == be_word(buf@.subrange(at as int, at + 4)),
{
    let b0 = buf[at] as u32;
    let b1 = buf[at + 1] as u32;
    let b2 = buf[at + 2] as u32;
    let b3 = buf[at + 3] as u32;
    b0 * 0x1000000 + b1 * 0x10000 + b2 * 0x100 + b3
}

/// Reads a path from its binary form.
pub fn decode_segments(buf: &[u8]) -> (r: Result<Vec<PathValue>, Error>)
    ensures
        match r {
            Ok(p) => decode_path(buf@) == Ok::<Seq<PathValue>, Error>(p@) && valid_path(p@),
            Err(e) => decode_path(buf@) == Err::<Seq<PathValue>, Error>(e),
        },
{
    if buf.len() == 0 {
        return Err(Error::InvalidFormat);
    }
    let count = buf[0] as usize;
    if buf.len() != 1 + 4 * count {
        return Err(Error::InvalidFormat);
    }
    let mut out: Vec<PathValue> = Vec::new();
    let mut i: usize = 0;
    while i < count
        invariant
            i <= count,
            count == buf@[0],
            buf@.len() == 1 + 4 * count,
            out@.len() == i,
            forall|j: int| 0 <= j < i ==> out@[j] == decode_segment(buf@, j),
        decreases count - i,
    {
        let w = read_word(buf, 1 + 4 * i);
        out.push(PathValue::from_raw(w));
        i += 1;
    }
    assert(out@ =~= Seq::new(buf@[0] as nat, |i: int| decode_segment(buf@, i)));
    assert(all_wf(out@));
    Ok(out)
}

} // verus!
