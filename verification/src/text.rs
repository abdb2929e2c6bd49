//! The text notation of a path, `m/44'/0'/0'/0/0`: its grammar as a function
//! from bytes to segments, the canonical way to write a path, and the proof
//! that reading what was written gives the path back.
//!
//! ```text
//! path    := ("m" | "M") "/" segment ("/" segment)*
//! segment := digit+ marker?
//! marker  := "'" | "H" | "h"
//! ```

use vstd::prelude::*;
use vstd::string::*;
use vstd::utf8::encode_utf8;
use crate::ascii::{all_ascii, as_chars, lemma_ascii_bytes};
use crate::decimal::{
    all_digits, append_decimal, decimal_text, decimal_value, is_digit, lemma_decimal_round_trip,
    lemma_decimal_text_ascii, lemma_decimal_text_digits, lemma_decimal_value_push, DIGIT_NINE,
    DIGIT_ZERO,
};
use crate::errors::Error;
use crate::path_value::{all_wf, valid_path, PathValue, FIRST_BIT, MAX_SEGMENTS};

verus! {

/// `/`, which separates the segments.
pub const SLASH: u8 = 47;

/// `'`, the hardened marker that is written.
pub const APOSTROPHE: u8 = 39;

/// `H`, a hardened marker that is read like the apostrophe.
pub const MARKER_UPPER: u8 = 72;

/// `h`, a hardened marker that is read like the apostrophe.
pub const MARKER_LOWER: u8 = 104;

/// `m`, the root as it is written.
pub const ROOT: u8 = 109;

/// `M`, which is read as the root as well.
pub const ROOT_UPPER: u8 = 77;

/// Whether `b` marks the segment before it as hardened.
pub open spec fn is_marker(b: u8) -> bool {
    b == APOSTROPHE || b == MARKER_UPPER || b == MARKER_LOWER
}

/// Whether `b` can stand as the root of a path.
pub open spec fn is_root(b: u8) -> bool {
    b == ROOT || b == ROOT_UPPER
}

/// The number of digits that `s` begins with.
pub open spec fn digit_run(s: Seq<u8>) -> nat
    decreases s.len(),
{
    if s.len() > 0 && is_digit(s[0]) {
        1 + digit_run(s.drop_first())
    } else {
        0
    }
}

/// The segments that `r` holds, with `v` put in front of them.
pub open spec fn followed_by(v: PathValue, r: Option<Seq<PathValue>>) -> Option<Seq<PathValue>> {
    match r {
        Some(t) => Some(seq![v] + t),
        None => None,
    }
}

/// Reads `segment ("/" segment)*` and gives the segments in order, or `None`
/// if `s` is not of that form or a number reaches `FIRST_BIT`.
pub open spec fn parse_segments(s: Seq<u8>) -> Option<Seq<PathValue>>
    decreases s.len(), 1nat,
    via parse_segments_decreases
{
    let n = digit_run(s) as int;
    let value = decimal_value(s.take(n));
    let rest = s.skip(n);
    if n == 0 || value >= FIRST_BIT {
        None
    } else if rest.len() > 0 && is_marker(rest[0]) {
        followed_by(PathValue::Hardened(value as u32), parse_tail(rest.skip(1)))
    } else {
        followed_by(PathValue::Normal(value as u32), parse_tail(rest))
    }
}

/// Reads what may follow a segment: nothing, or a slash and further
/// segments.
pub open spec fn parse_tail(s: Seq<u8>) -> Option<Seq<PathValue>>
    decreases s.len(), 0nat,
{
    if s.len() == 0 {
        Some(Seq::empty())
    } else if s[0] == SLASH {
        parse_segments(s.skip(1))
    } else {
        None
    }
}

#[via_fn]
proof fn parse_segments_decreases(s: Seq<u8>) {
    lemma_digit_run_digits(s);
}

/// Reads a whole path. The text must give the root, a slash and at least one
/// segment. The root alone, `m/`, is a path without segments and is refused
/// as `InvalidStructure`; a path of more than `MAX_SEGMENTS` segments is
/// refused with its length; anything else that the grammar does not admit is
/// `InvalidFormat`.
pub open spec fn parse_path(s: Seq<u8>) -> Result<Seq<PathValue>, Error> {
    if s.len() < 2 || !is_root(s[0]) || s[1] != SLASH {
        Err(Error::InvalidFormat)
    } else if s.len() == 2 {
        Err(Error::InvalidStructure)
    } else {
        match parse_segments(s.skip(2)) {
            None => Err(Error::InvalidFormat),
            Some(p) => if p.len() > MAX_SEGMENTS {
                Err(Error::InvalidLength(p.len() as usize))
            } else {
                Ok(p)
            },
        }
    }
}

/// A segment as it is written: its magnitude in decimal, and an apostrophe
/// behind it iff it is hardened.
pub open spec fn segment_text(v: PathValue) -> Seq<u8> {
    if v is Hardened {
        decimal_text(v.number() as nat).push(APOSTROPHE)
    } else {
        decimal_text(v.number() as nat)
    }
}

/// A slash and a segment, for each segment of `p` in order.
pub open spec fn tail_text(p: Seq<PathValue>) -> Seq<u8>
    decreases p.len(),
{
    if p.len() == 0 {
        Seq::empty()
    } else {
        seq![SLASH] + segment_text(p[0]) + tail_text(p.drop_first())
    }
}

/// The canonical text of a path: `m`, then a slash and a segment for each
/// segment in order.
pub open spec fn path_text(p: Seq<PathValue>) -> Seq<u8> {
    seq![ROOT] + tail_text(p)
}

/// The bytes that a text begins with, as far as its run of digits goes, are
/// digits.
pub proof fn lemma_digit_run_digits(s: Seq<u8>)
    ensures
        digit_run(s) <= s.len(),
        forall|i: int| 0 <= i < digit_run(s) ==> is_digit(#[trigger] s[i]),
    decreases s.len(),
{
    if s.len() > 0 && is_digit(s[0]) {
        let t = s.drop_first();
        lemma_digit_run_digits(t);
        assert forall|i: int| 0 <= i < digit_run(s) implies is_digit(#[trigger] s[i]) by {
            if i > 0 {
                assert(s[i] == t[i - 1]);
            }
        }
    }
}

/// Where `k` digits stand at the front of `s` and no digit follows them, the
/// run of digits is `k` long.
pub proof fn lemma_digit_run(s: Seq<u8>, k: int)
    requires
        0 <= k <= s.len(),
        forall|i: int| 0 <= i < k ==> is_digit(#[trigger] s[i]),
        k == s.len() || !is_digit(s[k]),
    ensures
        digit_run(s) == k,
    decreases k,
{
    if k > 0 {
        let t = s.drop_first();
        assert forall|i: int| 0 <= i < k - 1 implies is_digit(#[trigger] t[i]) by {
            assert(t[i] == s[i + 1]);
        }
        lemma_digit_run(t, k - 1);
    }
}

/// What is read from a text has at least one segment, and every segment is
/// within range.
pub proof fn lemma_parse_segments_valid(s: Seq<u8>)
    ensures
        parse_segments(s) matches Some(p) ==> p.len() > 0 && all_wf(p),
        parse_tail(s) matches Some(p) ==> all_wf(p),
    decreases s.len(),
{
    lemma_digit_run_digits(s);
    let n = digit_run(s) as int;
    if n > 0 {
        let rest = s.skip(n);
        lemma_parse_segments_valid(rest);
        if rest.len() > 0 {
            lemma_parse_segments_valid(rest.skip(1));
        }
    }
    if s.len() > 0 {
        lemma_parse_segments_valid(s.skip(1));
    }
}

/// A path that is read from a text is admissible and has a segment.
pub proof fn lemma_parse_path_valid(s: Seq<u8>)
    ensures
        parse_path(s) matches Ok(p) ==> p.len() > 0 && valid_path(p),
{
    if s.len() > 2 {
        lemma_parse_segments_valid(s.skip(2));
    }
}

/// Writing one more segment behind a path adds a slash and that segment to
/// its text.
pub proof fn lemma_tail_text_push(p: Seq<PathValue>, v: PathValue)
    ensures
        tail_text(p.push(v)) == tail_text(p) + seq![SLASH] + segment_text(v),
    decreases p.len(),
{
    if p.len() == 0 {
        assert(p.push(v).drop_first() =~= Seq::<PathValue>::empty());
        assert(tail_text(Seq::<PathValue>::empty()) =~= Seq::<u8>::empty());
        assert(tail_text(p.push(v)) =~= tail_text(p) + seq![SLASH] + segment_text(v));
    } else {
        lemma_tail_text_push(p.drop_first(), v);
        assert(p.push(v).drop_first() =~= p.drop_first().push(v));
        assert(tail_text(p.push(v)) =~= tail_text(p) + seq![SLASH] + segment_text(v));
    }
}

/// What is written for segments that keep the range invariant is read back
/// as those segments.
pub proof fn lemma_parse_tail_text(q: Seq<PathValue>)
    requires
        all_wf(q),
    ensures
        parse_tail(tail_text(q)) == Some(q),
    decreases q.len(),
{
    if q.len() == 0 {
        assert(q =~= Seq::<PathValue>::empty());
    } else {
        let v = q[0];
        let rest = q.drop_first();
        assert(all_wf(rest)) by {
            assert forall|i: int| 0 <= i < rest.len() implies (#[trigger] rest[i]).wf() by {
                assert(rest[i] == q[i + 1]);
            }
        }
        lemma_parse_tail_text(rest);
        let d = decimal_text(v.number() as nat);
        let k = d.len() as int;
        lemma_decimal_text_digits(v.number() as nat);
        lemma_decimal_round_trip(v.number() as nat);
        let s = segment_text(v) + tail_text(rest);
        assert(tail_text(q).skip(1) =~= s);
        assert(v.wf());
        assert forall|i: int| 0 <= i < k implies is_digit(#[trigger] s[i]) by {
            assert(s[i] == d[i]);
        }
        if rest.len() > 0 {
            assert(tail_text(rest)[0] == SLASH);
        }
        lemma_digit_run(s, k);
        assert(s.take(k) =~= d);
        if v is Hardened {
            assert(s.skip(k)[0] == APOSTROPHE);
            assert(s.skip(k).skip(1) =~= tail_text(rest));
        } else {
            assert(s.skip(k) =~= tail_text(rest));
        }
        assert(seq![v] + rest =~= q);
    }
}

/// The text round trip: a path of at least one and at most `MAX_SEGMENTS`
/// segments, each within range, is read back from its canonical text as
/// itself.
pub proof fn lemma_text_round_trip(p: Seq<PathValue>)
    requires
        0 < p.len() <= MAX_SEGMENTS,
        all_wf(p),
    ensures
        parse_path(path_text(p)) == Ok::<Seq<PathValue>, Error>(p),
{
    lemma_parse_tail_text(p);
    let s = path_text(p);
    let t = tail_text(p);
    lemma_decimal_text_digits(p[0].number() as nat);
    assert(t[0] == SLASH);
    assert(s[0] == ROOT && s[1] == SLASH);
    assert(s.len() > 2);
    assert(s.skip(2) =~= t.skip(1));
}

/// A text in canonical form, that is the text of some admissible path, is
/// read successfully, and writing what was read gives the same text.
pub proof fn lemma_canonical_text_reprints(s: Seq<u8>, p: Seq<PathValue>)
    requires
        0 < p.len() <= MAX_SEGMENTS,
        all_wf(p),
        s == path_text(p),
    ensures
        parse_path(s) is Ok,
        path_text(parse_path(s)->Ok_0) == s,
{
    lemma_text_round_trip(p);
}

/// Reading is stable: what a text reads as is read again from its own
/// canonical text, whatever markers, root and leading zeros the text had.
pub proof fn lemma_reading_is_stable(s: Seq<u8>)
    requires
        parse_path(s) is Ok,
    ensures
        parse_path(path_text(parse_path(s)->Ok_0)) == parse_path(s),
{
    lemma_parse_path_valid(s);
    lemma_text_round_trip(parse_path(s)->Ok_0);
}

/// Whether two texts are the same but for the choice of hardened marker:
/// they have the same length, and where they differ both hold a marker.
pub open spec fn same_but_markers(s: Seq<u8>, t: Seq<u8>) -> bool {
    &&& s.len() == t.len()
    &&& forall|i: int|
        0 <= i < s.len() ==> #[trigger] s[i] == t[i] || (is_marker(s[i]) && is_marker(t[i]))
}

/// Two texts that are the same but for their markers begin with the same
/// digits.
pub proof fn lemma_same_digit_run(s: Seq<u8>, t: Seq<u8>)
    requires
        same_but_markers(s, t),
    ensures
        digit_run(s) == digit_run(t),
        s.take(digit_run(s) as int) == t.take(digit_run(s) as int),
    decreases s.len(),
{
    lemma_digit_run_digits(s);
    if s.len() > 0 {
        assert(s[0] == t[0] || (is_marker(s[0]) && is_marker(t[0])));
        if is_digit(s[0]) {
            let s1 = s.drop_first();
            let t1 = t.drop_first();
            assert(same_but_markers(s1, t1)) by {
                assert forall|i: int| 0 <= i < s1.len() implies #[trigger] s1[i] == t1[i] || (
                is_marker(s1[i]) && is_marker(t1[i])) by {
                    assert(s[i + 1] == t[i + 1] || (is_marker(s[i + 1]) && is_marker(t[i + 1])));
                }
            }
            lemma_same_digit_run(s1, t1);
        }
    }
    let n = digit_run(s) as int;
    assert forall|i: int| 0 <= i < n implies s.take(n)[i] == t.take(n)[i] by {
        assert(is_digit(s[i]));
        assert(s[i] == t[i] || (is_marker(s[i]) && is_marker(t[i])));
    }
    assert(s.take(n) =~= t.take(n));
}

/// What is left of two texts that are the same but for their markers, when
/// the same number of bytes is taken from the front of both, is the same but
/// for its markers.
pub proof fn lemma_same_but_markers_skip(s: Seq<u8>, t: Seq<u8>, n: int)
    requires
        same_but_markers(s, t),
        0 <= n <= s.len(),
    ensures
        same_but_markers(s.skip(n), t.skip(n)),
{
    let a = s.skip(n);
    let b = t.skip(n);
    assert forall|i: int| 0 <= i < a.len() implies #[trigger] a[i] == b[i] || (is_marker(a[i])
        && is_marker(b[i])) by {
        assert(s[i + n] == t[i + n] || (is_marker(s[i + n]) && is_marker(t[i + n])));
    }
}

/// The hardened markers are interchangeable: two texts that are the same but
/// for the choice of marker at some places read as the same segments.
pub proof fn lemma_markers_interchangeable(s: Seq<u8>, t: Seq<u8>)
    requires
        same_but_markers(s, t),
    ensures
        parse_segments(s) == parse_segments(t),
        parse_tail(s) == parse_tail(t),
    decreases s.len(),
{
    if s.len() > 0 {
        assert(s[0] == t[0] || (is_marker(s[0]) && is_marker(t[0])));
        lemma_same_but_markers_skip(s, t, 1);
        lemma_markers_interchangeable(s.skip(1), t.skip(1));
        lemma_same_digit_run(s, t);
        lemma_digit_run_digits(s);
        let n = digit_run(s) as int;
        if n > 0 {
            lemma_same_but_markers_skip(s, t, n);
            let a = s.skip(n);
            let b = t.skip(n);
            lemma_markers_interchangeable(a, b);
            if a.len() > 0 {
                assert(a[0] == b[0] || (is_marker(a[0]) && is_marker(b[0])));
                lemma_same_but_markers_skip(a, b, 1);
                lemma_markers_interchangeable(a.skip(1), b.skip(1));
            }
        }
    }
}

/// A path reads the same whichever of the markers `'`, `H` and `h` its
/// hardened segments carry, and whether its root is `m` or `M`.
pub proof fn lemma_path_markers_interchangeable(s: Seq<u8>, t: Seq<u8>)
    requires
        s.len() == t.len(),
        s.len() >= 1 ==> s[0] == t[0] || (is_root(s[0]) && is_root(t[0])),
        s.len() >= 2 ==> s[1] == t[1],
        s.len() >= 2 ==> same_but_markers(s.skip(2), t.skip(2)),
    ensures
        parse_path(s) == parse_path(t),
{
    if s.len() > 2 {
        lemma_markers_interchangeable(s.skip(2), t.skip(2));
    }
}

/// The segments `k`, followed by those that `r` holds.
pub open spec fn prefixed(k: Seq<PathValue>, r: Option<Seq<PathValue>>) -> Option<Seq<PathValue>> {
    match r {
        Some(t) => Some(k + t),
        None => None,
    }
}

/// Where the scanner stands between two bytes.
#[derive(Clone, Copy, PartialEq, Eq, Structural)]
enum Scan {
    /// A segment must begin here.
    AwaitingDigit,
    /// At least one digit of a segment has been read.
    InNumber,
    /// A hardened marker has closed a segment.
    JustMarked,
}

/// What the scanner has established after reading `text` up to `pos`, for
/// each state: how the reading of the whole body follows from the segments
/// closed so far and from what is still to be read.
spec fn scanned(
    text: Seq<u8>,
    pos: int,
    state: Scan,
    start: int,
    num: u64,
    keys: Seq<PathValue>,
) -> bool {
    let full = parse_segments(text.skip(2));
    match state {
        Scan::AwaitingDigit => full == prefixed(keys, parse_segments(text.skip(pos))),
        Scan::InNumber => {
            &&& 2 <= start < pos
            &&& all_digits(text.subrange(start, pos))
            &&& num <= FIRST_BIT
            &&& decimal_value(text.subrange(start, pos)) >= FIRST_BIT ==> num == FIRST_BIT
            &&& decimal_value(text.subrange(start, pos)) < FIRST_BIT ==> num == decimal_value(
                text.subrange(start, pos),
            )
            &&& full == prefixed(keys, parse_segments(text.skip(start)))
        },
        Scan::JustMarked => full == prefixed(keys, parse_tail(text.skip(pos))),
    }
}

/// The segment that begins at `start` and whose digits end before `pos`,
/// where the byte at `pos`, if there is one, is no digit: how the reading of
/// the text from `start` goes on behind the digits.
proof fn lemma_number_closes(text: Seq<u8>, start: int, pos: int)
    requires
        0 <= start < pos <= text.len(),
        all_digits(text.subrange(start, pos)),
        pos == text.len() || !is_digit(text[pos]),
    ensures
        parse_segments(text.skip(start)) == ({
            let value = decimal_value(text.subrange(start, pos));
            let rest = text.skip(pos);
            if value >= FIRST_BIT {
                None
            } else if rest.len() > 0 && is_marker(rest[0]) {
                followed_by(PathValue::Hardened(value as u32), parse_tail(text.skip(pos + 1)))
            } else {
                followed_by(PathValue::Normal(value as u32), parse_tail(rest))
            }
        }),
{
    let s = text.skip(start);
    let k = pos - start;
    assert forall|i: int| 0 <= i < k implies is_digit(#[trigger] s[i]) by {
        assert(s[i] == text.subrange(start, pos)[i]);
    }
    lemma_digit_run(s, k);
    assert(s.take(k) =~= text.subrange(start, pos));
    assert(s.skip(k) =~= text.skip(pos));
    if pos < text.len() {
        assert(text.skip(pos).skip(1) =~= text.skip(pos + 1));
    }
}

/// Reads a path from its text, one byte at a time and without looking back.
/// It gives the segments in order, or says why the text is refused.
pub fn parse_text(text: &[u8]) -> (r: Result<Vec<PathValue>, Error>)
    ensures
        match r {
            Ok(keys) => parse_path(text@) == Ok::<Seq<PathValue>, Error>(keys@),
            Err(e) => parse_path(text@) == Err::<Seq<PathValue>, Error>(e),
        },
{
    let n = text.len();
    if n < 2 {
        return Err(Error::InvalidFormat);
    }
    if text[0] != ROOT && text[0] != ROOT_UPPER {
        return Err(Error::InvalidFormat);
    }
    if text[1] != SLASH {
        return Err(Error::InvalidFormat);
    }
    if n == 2 {
        return Err(Error::InvalidStructure);
    }
    let mut keys: Vec<PathValue> = Vec::new();
    let mut pos: usize = 2;
    let mut num: u64 = 0;
    let mut state = Scan::AwaitingDigit;
    let ghost mut start: int = 2;
    proof {
        assert(prefixed(keys@, parse_segments(text@.skip(2))) == parse_segments(text@.skip(2))) by {
            if let Some(t) = parse_segments(text@.skip(2)) {
                assert(keys@ + t =~= t);
            }
        }
    }
    while pos < n
        invariant
            n == text@.len(),
            2 <= pos <= n,
            scanned(text@, pos as int, state, start, num, keys@),
        decreases n - pos,
    {
        let c = text[pos];
        proof {
            let here = text@.skip(pos as int);
            assert(here.len() > 0 && here[0] == c);
            if state == Scan::InNumber && !is_digit(c) {
                lemma_number_closes(text@, start, pos as int);
            }
            if state == Scan::AwaitingDigit && !is_digit(c) {
                assert(digit_run(here) == 0);
            }
            assert(here.skip(1) =~= text@.skip(pos + 1));
        }
        if c == APOSTROPHE || c == MARKER_UPPER || c == MARKER_LOWER {
            if state != Scan::InNumber {
                return Err(Error::InvalidFormat);
            }
            if num >= FIRST_BIT as u64 {
                return Err(Error::InvalidFormat);
            }
            let v = PathValue::Hardened(num as u32);
            proof {
                if let Some(t) = parse_tail(text@.skip(pos + 1)) {
                    assert(keys@ + (seq![v] + t) =~= keys@.push(v) + t);
                }
            }
            keys.push(v);
            state = Scan::JustMarked;
            num = 0;
        } else if c == SLASH {
            if state == Scan::InNumber {
                if num >= FIRST_BIT as u64 {
                    return Err(Error::InvalidFormat);
                }
                let v = PathValue::Normal(num as u32);
                proof {
                    if let Some(t) = parse_segments(text@.skip(pos + 1)) {
                        assert(keys@ + (seq![v] + t) =~= keys@.push(v) + t);
                    }
                }
                keys.push(v);
            } else if state != Scan::JustMarked {
                return Err(Error::InvalidFormat);
            }
            state = Scan::AwaitingDigit;
            num = 0;
        } else if DIGIT_ZERO <= c && c <= DIGIT_NINE {
            if state == Scan::AwaitingDigit {
                proof {
                    start = pos as int;
                    assert(text@.subrange(start, pos + 1) =~= Seq::<u8>::empty().push(c));
                    lemma_decimal_value_push(Seq::<u8>::empty(), c);
                }
                state = Scan::InNumber;
                num = (c - DIGIT_ZERO) as u64;
            } else if state == Scan::InNumber {
                proof {
                    assert(text@.subrange(start, pos + 1) =~= text@.subrange(start, pos as int).push(c));
                    lemma_decimal_value_push(text@.subrange(start, pos as int), c);
                }
                num = num * 10 + (c - DIGIT_ZERO) as u64;
                if num > FIRST_BIT as u64 {
                    num = FIRST_BIT as u64;
                }
            } else {
                return Err(Error::InvalidFormat);
            }
        } else {
            return Err(Error::InvalidFormat);
        }
        pos += 1;
    }
    proof {
        assert(text@.skip(pos as int) =~= Seq::<u8>::empty());
    }
    match state {
        Scan::AwaitingDigit => {
            return Err(Error::InvalidFormat);
        },
        Scan::InNumber => {
            proof {
                lemma_number_closes(text@, start, pos as int);
            }
            if num >= FIRST_BIT as u64 {
                return Err(Error::InvalidFormat);
            }
            let v = PathValue::Normal(num as u32);
            proof {
                assert(keys@ + (seq![v] + Seq::<PathValue>::empty()) =~= keys@.push(v));
            }
            keys.push(v);
        },
        Scan::JustMarked => {
            proof {
                assert(keys@ + Seq::<PathValue>::empty() =~= keys@);
            }
        },
    }
    if keys.len() > MAX_SEGMENTS {
        return Err(Error::InvalidLength(keys.len()));
    }
    Ok(keys)
}

/// The text of a segment is plain ASCII.
pub proof fn lemma_segment_text_ascii(v: PathValue)
    ensures
        all_ascii(segment_text(v)),
{
    lemma_decimal_text_ascii(v.number() as nat);
}

/// The text of a path is plain ASCII.
pub proof fn lemma_path_text_ascii(p: Seq<PathValue>)
    ensures
        all_ascii(tail_text(p)),
        all_ascii(path_text(p)),
    decreases p.len(),
{
    if p.len() > 0 {
        lemma_path_text_ascii(p.drop_first());
        lemma_segment_text_ascii(p[0]);
    }
}

/// Appends a segment as it is written.
pub fn append_segment(out: &mut String, v: &PathValue)
    ensures
        final(out)@ == old(out)@ + as_chars(segment_text(*v)),
{
    append_decimal(out, v.as_number() as u64);
    match v {
        PathValue::Hardened(_) => {
            proof {
                reveal_strlit("'");
            }
            out.append("'");
            assert(out@ =~= old(out)@ + as_chars(segment_text(*v)));
        },
        PathValue::Normal(_) => {},
    }
}

/// Writes a path in its canonical text.
pub fn path_to_string(path: &Vec<PathValue>) -> (s: String)
    ensures
        s@ == as_chars(path_text(path@)),
        encode_utf8(s@) == path_text(path@),
{
    let mut s = String::new();
    proof {
        reveal_strlit("m");
    }
    s.append("m");
    assert(s@ =~= as_chars(path_text(path@.take(0)))) by {
        assert(path@.take(0) =~= Seq::<PathValue>::empty());
    }
    let mut i: usize = 0;
    while i < path.len()
        invariant
            i <= path.len(),
            s@ == as_chars(path_text(path@.take(i as int))),
        decreases path.len() - i,
    {
        let ghost before = s@;
        s.append("/");
        append_segment(&mut s, &path[i]);
        proof {
            reveal_strlit("/");
            let p = path@.take(i as int);
            lemma_tail_text_push(p, path@[i as int]);
            assert(path@.take(i + 1) =~= p.push(path@[i as int]));
            let seg = segment_text(path@[i as int]);
            assert("/"@ =~= as_chars(seq![SLASH]));
            assert(s@ == before + as_chars(seq![SLASH]) + as_chars(seg));
            assert(path_text(p.push(path@[i as int])) =~= path_text(p) + seq![SLASH] + seg);
            assert(as_chars(path_text(p) + seq![SLASH] + seg) =~= as_chars(path_text(p)) + as_chars(
                seq![SLASH],
            ) + as_chars(seg));
        }
        i += 1;
    }
    proof {
        assert(path@.take(i as int) =~= path@);
        lemma_path_text_ascii(path@);
        lemma_ascii_bytes(path_text(path@));
    }
    s
}

} // verus!
