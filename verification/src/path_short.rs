//! The short path, `m/purpose'/coin_type'/account'/index`.

use vstd::prelude::*;
use vstd::std_specs::cmp::PartialEqSpecImpl;
use vstd::std_specs::convert::TryFromSpecImpl;
use vstd::string::*;
use vstd::utf8::encode_utf8;
use crate::ascii::as_chars;
use crate::codec::encode_path;
use crate::errors::Error;
use crate::path_custom::CustomHDPath;
use crate::path_value::{valid_path, PathValue, FIRST_BIT};
use crate::purpose::Purpose;
use crate::shape::{
    check_shape, decode_arity, decode_with_arity, lemma_decode_arity_round_trip, shape_purpose,
    SHORT_ARITY,
};
use crate::text::{lemma_text_round_trip, parse_path, path_text, path_to_string};
use crate::traits::HDPath;

verus! {

/// A path of four segments: purpose, coin type and account, all hardened,
/// then a normal index. The fields hold the magnitudes.
#[derive(Debug, Clone, Copy, Eq, Hash)]
pub struct ShortHDPath {
    pub purpose: Purpose,
    pub coin_type: u32,
    pub account: u32,
    pub index: u32,
}

/// The short path that a sequence of segments stands for, or why it stands
/// for none.
pub open spec fn short_of(p: Seq<PathValue>) -> Result<ShortHDPath, Error> {
    match shape_purpose(p, SHORT_ARITY as nat) {
        Err(e) => Err(e),
        Ok(purpose) => Ok(
            ShortHDPath {
                purpose,
                coin_type: p[1].number(),
                account: p[2].number(),
                index: p[3].number(),
            },
        ),
    }
}

/// The short path that a text stands for: what the text reads as must have
/// the short shape.
pub open spec fn short_of_text(s: Seq<u8>) -> Result<ShortHDPath, Error> {
    match parse_path(s) {
        Err(e) => Err(e),
        Ok(p) => short_of(p),
    }
}

/// The short path that a buffer stands for. A buffer that has not the
/// layout of a path, or counts another number of segments than four, is
/// `InvalidFormat`; four segments that have not the short shape are refused
/// as by `short_of`.
pub open spec fn short_of_bytes(b: Seq<u8>) -> Result<ShortHDPath, Error> {
    match decode_arity(b, SHORT_ARITY as nat) {
        Err(e) => Err(e),
        Ok(p) => short_of(p),
    }
}

/// Whether two short paths are equal: their purposes have the same code and
/// their other fields are the same.
pub open spec fn short_eq(a: ShortHDPath, b: ShortHDPath) -> bool {
    a.purpose.code() == b.purpose.code() && a.coin_type == b.coin_type && a.account == b.account
        && a.index == b.index
}

impl ShortHDPath {
    /// Tells whether the path keeps its invariant.
    pub fn is_valid(&self) -> (ok: bool)
        ensures
            ok == self.wf(),
    {
        self.purpose.is_valid() && PathValue::is_ok(self.coin_type) && PathValue::is_ok(
            self.account,
        ) && PathValue::is_ok(self.index)
    }

    /// The short path that the given segments stand for.
    pub fn from_segments(path: &Vec<PathValue>) -> (r: Result<ShortHDPath, Error>)
        ensures
            r == short_of(path@),
            r matches Ok(path) ==> path.wf(),
    {
        match check_shape(path, SHORT_ARITY) {
            Err(e) => Err(e),
            Ok(purpose) => Ok(
                ShortHDPath {
                    purpose,
                    coin_type: path[1].as_number(),
                    account: path[2].as_number(),
                    index: path[3].as_number(),
                },
            ),
        }
    }

    /// Reads a short path from its binary form: the count 4 and four words.
    pub fn from_bytes(path: &[u8]) -> (r: Result<ShortHDPath, Error>)
        ensures
            r == short_of_bytes(path@),
            r matches Ok(path) ==> path.wf(),
    {
        match decode_with_arity(path, SHORT_ARITY) {
            Err(e) => Err(e),
            Ok(keys) => ShortHDPath::from_segments(&keys),
        }
    }

    /// Reads a short path from its text, given as bytes.
    pub fn parse(text: &[u8]) -> (r: Result<ShortHDPath, Error>)
        ensures
            r == short_of_text(text@),
            r matches Ok(path) ==> path.wf(),
    {
        match CustomHDPath::parse(text) {
            Err(e) => Err(e),
            Ok(custom) => ShortHDPath::from_segments(&custom.0),
        }
    }

    /// The canonical text of the path, `m/44'/0'/0'/0`.
    pub fn to_string(&self) -> (s: String)
        ensures
            s@ == as_chars(path_text(self.segments())),
            encode_utf8(s@) == path_text(self.segments()),
    {
        let all = vec![
            self.purpose.as_value(),
            PathValue::Hardened(self.coin_type),
            PathValue::Hardened(self.account),
            PathValue::Normal(self.index),
        ];
        assert(all@ =~= self.segments());
        path_to_string(&all)
    }
}

impl HDPath for ShortHDPath {
    open spec fn segments(&self) -> Seq<PathValue> {
        seq![
            self.purpose.value(),
            PathValue::Hardened(self.coin_type),
            PathValue::Hardened(self.account),
            PathValue::Normal(self.index),
        ]
    }

    /// The invariant of a short path: every field is within range.
    open spec fn wf(&self) -> bool {
        self.purpose.wf() && self.coin_type < FIRST_BIT && self.account < FIRST_BIT && self.index
            < FIRST_BIT
    }

    proof fn lemma_wf(&self) {
        lemma_short_segments(*self);
    }

    fn len(&self) -> (n: u8) {
        4
    }

    fn get(&self, pos: u8) -> (v: Option<PathValue>) {
        match pos {
            0 => Some(self.purpose.as_value()),
            1 => Some(PathValue::Hardened(self.coin_type)),
            2 => Some(PathValue::Hardened(self.account)),
            3 => Some(PathValue::Normal(self.index)),
            _ => None,
        }
    }
}

impl PartialEq for ShortHDPath {
    fn eq(&self, other: &ShortHDPath) -> (r: bool) {
        self.purpose == other.purpose && self.coin_type == other.coin_type && self.account
            == other.account && self.index == other.index
    }
}

impl PartialEqSpecImpl for ShortHDPath {
    open spec fn obeys_eq_spec() -> bool {
        true
    }

    open spec fn eq_spec(&self, other: &ShortHDPath) -> bool {
        short_eq(*self, *other)
    }
}

impl TryFrom<CustomHDPath> for ShortHDPath {
    type Error = Error;

    fn try_from(value: CustomHDPath) -> (r: Result<ShortHDPath, Error>)
        ensures
            r matches Ok(path) ==> path.wf(),
    {
        ShortHDPath::from_segments(&value.0)
    }
}

impl TryFromSpecImpl<CustomHDPath> for ShortHDPath {
    open spec fn obeys_try_from_spec() -> bool {
        true
    }

    open spec fn try_from_spec(value: CustomHDPath) -> Result<ShortHDPath, Error> {
        short_of(value@)
    }
}

impl<'a> TryFrom<&'a str> for ShortHDPath {
    type Error = Error;

    fn try_from(value: &'a str) -> (r: Result<ShortHDPath, Error>)
        ensures
            r matches Ok(path) ==> path.wf(),
    {
        ShortHDPath::parse(value.as_bytes())
    }
}

impl<'a> TryFromSpecImpl<&'a str> for ShortHDPath {
    open spec fn obeys_try_from_spec() -> bool {
        true
    }

    open spec fn try_from_spec(value: &'a str) -> Result<ShortHDPath, Error> {
        short_of_text(value.spec_bytes())
    }
}

impl std::str::FromStr for ShortHDPath {
    type Err = Error;

    fn from_str(s: &str) -> (r: Result<ShortHDPath, Error>)
        ensures
            r == short_of_text(s.spec_bytes()),
            r matches Ok(path) ==> path.wf(),
    {
        ShortHDPath::parse(s.as_bytes())
    }
}

/// A short path within range has four segments that make an admissible path
/// of the short shape, and they stand for a path equal to it.
pub proof fn lemma_short_segments(v: ShortHDPath)
    requires
        v.wf(),
    ensures
        valid_path(v.segments()),
        v.segments().len() == SHORT_ARITY,
        short_of(v.segments()) matches Ok(d) && short_eq(d, v) && d.segments() == v.segments(),
{
    let p = v.segments();
    assert(p[0].wf() && p[1].wf() && p[2].wf() && p[3].wf());
}

/// The binary round trip: the binary form of a short path within range is
/// read back as a path equal to it.
pub proof fn lemma_short_bytes_round_trip(v: ShortHDPath)
    requires
        v.wf(),
    ensures
        short_of_bytes(encode_path(v.segments())) matches Ok(d) && short_eq(d, v),
{
    lemma_short_segments(v);
    lemma_decode_arity_round_trip(v.segments(), SHORT_ARITY as nat);
}

/// The text round trip: the canonical text of a short path within range is
/// read back as a path equal to it.
pub proof fn lemma_short_text_round_trip(v: ShortHDPath)
    requires
        v.wf(),
    ensures
        short_of_text(path_text(v.segments())) matches Ok(d) && short_eq(d, v),
{
    lemma_short_segments(v);
    lemma_text_round_trip(v.segments());
}

} // verus!
