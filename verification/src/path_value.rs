//! One segment of a path and its raw 32-bit form.

use vstd::prelude::*;
use crate::ascii::as_chars;
use crate::errors::Error;
use crate::text::{append_segment, segment_text};

verus! {

/// The bit of a raw 32-bit word that marks a hardened segment. Magnitudes lie
/// strictly below it.
pub const FIRST_BIT: u32 = 0x80000000;

/// The most segments that a path can have: the count must fit in one byte.
pub const MAX_SEGMENTS: usize = 255;

/// One segment of a path: a magnitude below `FIRST_BIT`, tagged as normal or
/// hardened.
#[derive(Debug, Clone, Copy, PartialEq, Eq, PartialOrd, Ord, Hash, Structural)]
pub enum PathValue {
    Normal(u32),
    Hardened(u32),
}

impl PathValue {
    /// The magnitude without its tag.
    pub open spec fn number(self) -> u32 {
        match self {
            PathValue::Normal(n) => n,
            PathValue::Hardened(n) => n,
        }
    }

    /// The range invariant: the magnitude leaves the top bit free.
    pub open spec fn wf(self) -> bool {
        self.number() < FIRST_BIT
    }

    /// The raw 32-bit word of a well-formed segment: the magnitude, with the
    /// top bit set iff the segment is hardened.
    pub open spec fn raw(self) -> u32
        recommends
            self.wf(),
    {
        match self {
            PathValue::Normal(n) => n,
            PathValue::Hardened(n) => (n + FIRST_BIT) as u32,
        }
    }

    /// The segment that a raw word stands for. Defined for every word.
    pub open spec fn of_raw(word: u32) -> PathValue {
        if word >= FIRST_BIT {
            PathValue::Hardened((word - FIRST_BIT) as u32)
        } else {
            PathValue::Normal(word)
        }
    }

    /// Tells whether `value` can be the magnitude of a segment.
    pub fn is_ok(value: u32) -> (ok: bool)
        ensures
            ok == (value < FIRST_BIT),
    {
        value < FIRST_BIT
    }

    /// Tells whether the segment keeps the range invariant.
    pub fn is_valid(&self) -> (ok: bool)
        ensures
            ok == self.wf(),
    {
        PathValue::is_ok(self.as_number())
    }

    /// A normal segment of magnitude `value`, unless `value` is out of range.
    pub fn try_normal(value: u32) -> (r: Result<PathValue, Error>)
        ensures
            value < FIRST_BIT ==> r == Ok::<PathValue, Error>(PathValue::Normal(value)),
            value >= FIRST_BIT ==> r == Err::<PathValue, Error>(Error::HighBitIsSet),
    {
        if !PathValue::is_ok(value) {
            Err(Error::HighBitIsSet)
        } else {
            Ok(PathValue::Normal(value))
        }
    }

    /// A normal segment of magnitude `value`, which the caller knows to be
    /// in range.
    pub fn normal(value: u32) -> (v: PathValue)
        requires
            value < FIRST_BIT,
        ensures
            v == PathValue::Normal(value),
            v.wf(),
    {
        PathValue::Normal(value)
    }

    /// A hardened segment of magnitude `value`, unless `value` is out of
    /// range.
    pub fn try_hardened(value: u32) -> (r: Result<PathValue, Error>)
        ensures
            value < FIRST_BIT ==> r == Ok::<PathValue, Error>(PathValue::Hardened(value)),
            value >= FIRST_BIT ==> r == Err::<PathValue, Error>(Error::HighBitIsSet),
    {
        if !PathValue::is_ok(value) {
            Err(Error::HighBitIsSet)
        } else {
            Ok(PathValue::Hardened(value))
        }
    }

    /// A hardened segment of magnitude `value`, which the caller knows to be
    /// in range.
    pub fn hardened(value: u32) -> (v: PathValue)
        requires
            value < FIRST_BIT,
        ensures
            v == PathValue::Hardened(value),
            v.wf(),
    {
        PathValue::Hardened(value)
    }

    /// The segment that a raw word stands for: hardened iff the top bit is
    /// set, with the other 31 bits as its magnitude.
    pub fn from_raw(value: u32) -> (v: PathValue)
        ensures
            v == PathValue::of_raw(value),
            v.wf(),
            v.raw() == value,
    {
        if value >= FIRST_BIT {
            PathValue::Hardened(value - FIRST_BIT)
        } else {
            PathValue::Normal(value)
        }
    }

    /// The magnitude without its tag.
    pub fn as_number(&self) -> (n: u32)
        ensures
            n == self.number(),
    {
        match self {
            PathValue::Normal(n) => *n,
            PathValue::Hardened(n) => *n,
        }
    }

    /// The raw word of the segment.
    pub fn to_raw(&self) -> (word: u32)
        requires
            self.wf(),
        ensures
            word == self.raw(),
            PathValue::of_raw(word) == *self,
    {
        match self {
            PathValue::Normal(n) => *n,
            PathValue::Hardened(n) => *n + FIRST_BIT,
        }
    }

    /// The segment as it is written: `7` if normal, `7'` if hardened.
    pub fn to_string(&self) -> (s: String)
        ensures
            s@ == as_chars(segment_text(*self)),
    {
        let mut s = String::new();
        append_segment(&mut s, self);
        assert(s@ =~= as_chars(segment_text(*self)));
        s
    }
}

/// Whether every segment of `p` keeps the range invariant.
pub open spec fn all_wf(p: Seq<PathValue>) -> bool {
    forall|i: int| 0 <= i < p.len() ==> (#[trigger] p[i]).wf()
}

/// Whether `p` can be the segments of a path: at most `MAX_SEGMENTS` of
/// them, each within range.
pub open spec fn valid_path(p: Seq<PathValue>) -> bool {
    p.len() <= MAX_SEGMENTS && all_wf(p)
}

/// The raw round trip: a segment within range is found again from its raw
/// word.
pub proof fn lemma_raw_round_trip(v: PathValue)
    requires
        v.wf(),
    ensures
        PathValue::of_raw(v.raw()) == v,
{
}

/// Every raw word stands for exactly one segment within range: the one it
/// decodes to has that word, and no other segment within range has it.
pub proof fn lemma_of_raw_total(word: u32)
    ensures
        PathValue::of_raw(word).wf(),
        PathValue::of_raw(word).raw() == word,
        forall|v: PathValue| v.wf() && v.raw() == word ==> v == PathValue::of_raw(word),
{
}

} // verus!
