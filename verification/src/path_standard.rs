//! The standard path, `m/purpose'/coin_type'/account'/change/index`.

use std::cmp::Ordering;
use vstd::prelude::*;
use vstd::std_specs::cmp::{PartialEqSpecImpl, PartialOrdSpecImpl};
use vstd::std_specs::convert::{FromSpecImpl, TryFromSpecImpl};
use vstd::string::*;
use vstd::utf8::encode_utf8;
use crate::ascii::as_chars;
use crate::codec::encode_path;
use crate::errors::Error;
use crate::path_custom::CustomHDPath;
use crate::path_value::{valid_path, PathValue, FIRST_BIT};
use crate::purpose::{code_order, compare_numbers, then_order, Purpose};
use crate::shape::{
    check_shape, decode_arity, decode_with_arity, lemma_decode_arity_round_trip, shape_purpose,
    STANDARD_ARITY,
};
use crate::text::{lemma_text_round_trip, parse_path, path_text, path_to_string};
use crate::traits::HDPath;

verus! {

/// A path of five segments: purpose, coin type and account, all hardened,
/// then change and index, both normal. The fields hold the magnitudes.
#[derive(Debug, Clone, Copy, Eq)]
pub struct StandardHDPath {
    pub purpose: Purpose,
    pub coin_type: u32,
    pub account: u32,
    pub change: u32,
    pub index: u32,
}

/// The first of the five fields, in the order purpose, coin type, account,
/// change, index, whose value is out of range, with its name; `None` if all
/// are within range.
pub open spec fn standard_field_error(
    purpose: Purpose,
    coin_type: u32,
    account: u32,
    change: u32,
    index: u32,
) -> Option<(Seq<char>, u32)> {
    if !purpose.wf() {
        Some(("purpose"@, purpose.code()))
    } else if coin_type >= FIRST_BIT {
        Some(("coin_type"@, coin_type))
    } else if account >= FIRST_BIT {
        Some(("account"@, account))
    } else if change >= FIRST_BIT {
        Some(("change"@, change))
    } else if index >= FIRST_BIT {
        Some(("index"@, index))
    } else {
        None
    }
}

/// The standard path that a sequence of segments stands for, or why it
/// stands for none.
pub open spec fn standard_of(p: Seq<PathValue>) -> Result<StandardHDPath, Error> {
    match shape_purpose(p, STANDARD_ARITY as nat) {
        Err(e) => Err(e),
        Ok(purpose) => Ok(
            StandardHDPath {
                purpose,
                coin_type: p[1].number(),
                account: p[2].number(),
                change: p[3].number(),
                index: p[4].number(),
            },
        ),
    }
}

/// The standard path that a text stands for: what the text reads as must
/// have the standard shape.
pub open spec fn standard_of_text(s: Seq<u8>) -> Result<StandardHDPath, Error> {
    match parse_path(s) {
        Err(e) => Err(e),
        Ok(p) => standard_of(p),
    }
}

/// The standard path that a buffer stands for. A buffer that has not the
/// layout of a path, or counts another number of segments than five, is
/// `InvalidFormat`; five segments that have not the standard shape are
/// refused as by `standard_of`.
pub open spec fn standard_of_bytes(b: Seq<u8>) -> Result<StandardHDPath, Error> {
    match decode_arity(b, STANDARD_ARITY as nat) {
        Err(e) => Err(e),
        Ok(p) => standard_of(p),
    }
}

/// Whether two standard paths are equal: their purposes have the same code
/// and their other fields are the same.
pub open spec fn standard_eq(a: StandardHDPath, b: StandardHDPath) -> bool {
    a.purpose.code() == b.purpose.code() && a.coin_type == b.coin_type && a.account == b.account
        && a.change == b.change && a.index == b.index
}

/// How two standard paths compare: by purpose code, then coin type, then
/// account, then change, then index, each as a plain number.
pub open spec fn standard_order(a: StandardHDPath, b: StandardHDPath) -> Ordering {
    then_order(
        code_order(a.purpose.code(), b.purpose.code()),
        then_order(
            code_order(a.coin_type, b.coin_type),
            then_order(
                code_order(a.account, b.account),
                then_order(code_order(a.change, b.change), code_order(a.index, b.index)),
            ),
        ),
    )
}

impl StandardHDPath {
    /// Tells whether the path keeps its invariant.
    pub fn is_valid(&self) -> (ok: bool)
        ensures
            ok == self.wf(),
    {
        self.purpose.is_valid() && PathValue::is_ok(self.coin_type) && PathValue::is_ok(
            self.account,
        ) && PathValue::is_ok(self.change) && PathValue::is_ok(self.index)
    }

    /// Makes a standard path of values that the caller knows to be within
    /// range.
    pub fn new(purpose: Purpose, coin_type: u32, account: u32, change: u32, index: u32) -> (path:
        StandardHDPath)
        requires
            standard_field_error(purpose, coin_type, account, change, index) is None,
        ensures
            path == (StandardHDPath { purpose, coin_type, account, change, index }),
            path.wf(),
    {
        StandardHDPath { purpose, coin_type, account, change, index }
    }

    /// Makes a standard path, or names the first field whose value is out of
    /// range and gives that value.
    pub fn try_new(purpose: Purpose, coin_type: u32, account: u32, change: u32, index: u32) -> (r:
        Result<StandardHDPath, (String, u32)>)
        ensures
            match standard_field_error(purpose, coin_type, account, change, index) {
                None => r == Ok::<StandardHDPath, (String, u32)>(
                    StandardHDPath { purpose, coin_type, account, change, index },
                ),
                Some((name, value)) => r matches Err((n, v)) && n@ == name && v == value,
            },
            r matches Ok(path) ==> path.wf(),
    {
        if let Purpose::Custom(n) = purpose {
            if !PathValue::is_ok(n) {
                return Err((String::from_str("purpose"), n));
            }
        }
        if !PathValue::is_ok(coin_type) {
            return Err((String::from_str("coin_type"), coin_type));
        }
        if !PathValue::is_ok(account) {
            return Err((String::from_str("account"), account));
        }
        if !PathValue::is_ok(change) {
            return Err((String::from_str("change"), change));
        }
        if !PathValue::is_ok(index) {
            return Err((String::from_str("index"), index));
        }
        Ok(StandardHDPath { purpose, coin_type, account, change, index })
    }

    /// The purpose of the path.
    pub fn purpose(&self) -> (p: &Purpose)
        ensures
            *p == self.purpose,
    {
        &self.purpose
    }

    /// The magnitude of the coin type.
    pub fn coin_type(&self) -> (n: u32)
        ensures
            n == self.coin_type,
    {
        self.coin_type
    }

    /// The magnitude of the account.
    pub fn account(&self) -> (n: u32)
        ensures
            n == self.account,
    {
        self.account
    }

    /// The magnitude of the change segment.
    pub fn change(&self) -> (n: u32)
        ensures
            n == self.change,
    {
        self.change
    }

    /// The magnitude of the index.
    pub fn index(&self) -> (n: u32)
        ensures
            n == self.index,
    {
        self.index
    }

    /// The standard path that the given segments stand for.
    pub fn from_segments(path: &Vec<PathValue>) -> (r: Result<StandardHDPath, Error>)
        ensures
            r == standard_of(path@),
            r matches Ok(path) ==> path.wf(),
    {
        match check_shape(path, STANDARD_ARITY) {
            Err(e) => Err(e),
            Ok(purpose) => Ok(
                StandardHDPath {
                    purpose,
                    coin_type: path[1].as_number(),
                    account: path[2].as_number(),
                    change: path[3].as_number(),
                    index: path[4].as_number(),
                },
            ),
        }
    }

    /// Reads a standard path from its binary form: the count 5 and five
    /// words.
    pub fn from_bytes(path: &[u8]) -> (r: Result<StandardHDPath, Error>)
        ensures
            r == standard_of_bytes(path@),
            r matches Ok(path) ==> path.wf(),
    {
        match decode_with_arity(path, STANDARD_ARITY) {
            Err(e) => Err(e),
            Ok(keys) => StandardHDPath::from_segments(&keys),
        }
    }

    /// Reads a standard path from its text, given as bytes.
    pub fn parse(text: &[u8]) -> (r: Result<StandardHDPath, Error>)
        ensures
            r == standard_of_text(text@),
            r matches Ok(path) ==> path.wf(),
    {
        match CustomHDPath::parse(text) {
            Err(e) => Err(e),
            Ok(custom) => StandardHDPath::from_segments(&custom.0),
        }
    }

    /// The canonical text of the path, `m/44'/0'/0'/0/0`.
    pub fn to_string(&self) -> (s: String)
        ensures
            s@ == as_chars(path_text(self.segments())),
            encode_utf8(s@) == path_text(self.segments()),
    {
        let all = vec![
            self.purpose.as_value(),
            PathValue::Hardened(self.coin_type),
            PathValue::Hardened(self.account),
            PathValue::Normal(self.change),
            PathValue::Normal(self.index),
        ];
        assert(all@ =~= self.segments());
        path_to_string(&all)
    }

    /// Compares two standard paths field by field.
    pub fn cmp(&self, other: &StandardHDPath) -> (o: Ordering)
        ensures
            o == standard_order(*self, *other),
    {
        match self.purpose.cmp(&other.purpose) {
            Ordering::Equal => {},
            o => {
                return o;
            },
        }
        match compare_numbers(self.coin_type, other.coin_type) {
            Ordering::Equal => {},
            o => {
                return o;
            },
        }
        match compare_numbers(self.account, other.account) {
            Ordering::Equal => {},
            o => {
                return o;
            },
        }
        match compare_numbers(self.change, other.change) {
            Ordering::Equal => {},
            o => {
                return o;
            },
        }
        compare_numbers(self.index, other.index)
    }
}

impl HDPath for StandardHDPath {
    open spec fn segments(&self) -> Seq<PathValue> {
        seq![
            self.purpose.value(),
            PathValue::Hardened(self.coin_type),
            PathValue::Hardened(self.account),
            PathValue::Normal(self.change),
            PathValue::Normal(self.index),
        ]
    }

    /// The invariant of a standard path: every field is within range.
    open spec fn wf(&self) -> bool {
        standard_field_error(self.purpose, self.coin_type, self.account, self.change, self.index)
            is None
    }

    proof fn lemma_wf(&self) {
        lemma_standard_segments(*self);
    }

    fn len(&self) -> (n: u8) {
        5
    }

    fn get(&self, pos: u8) -> (v: Option<PathValue>) {
        match pos {
            0 => Some(self.purpose.as_value()),
            1 => Some(PathValue::Hardened(self.coin_type)),
            2 => Some(PathValue::Hardened(self.account)),
            3 => Some(PathValue::Normal(self.change)),
            4 => Some(PathValue::Normal(self.index)),
            _ => None,
        }
    }
}

impl Default for StandardHDPath {
    /// `m/44'/0'/0'/0/0`
    fn default() -> (path: StandardHDPath)
        ensures
            path == (StandardHDPath {
                purpose: Purpose::Pubkey,
                coin_type: 0,
                account: 0,
                change: 0,
                index: 0,
            }),
            path.wf(),
    {
        StandardHDPath { purpose: Purpose::Pubkey, coin_type: 0, account: 0, change: 0, index: 0 }
    }
}

impl PartialEq for StandardHDPath {
    fn eq(&self, other: &StandardHDPath) -> (r: bool) {
        self.purpose == other.purpose && self.coin_type == other.coin_type && self.account
            == other.account && self.change == other.change && self.index == other.index
    }
}

impl PartialEqSpecImpl for StandardHDPath {
    open spec fn obeys_eq_spec() -> bool {
        true
    }

    open spec fn eq_spec(&self, other: &StandardHDPath) -> bool {
        standard_eq(*self, *other)
    }
}

impl PartialOrd for StandardHDPath {
    fn partial_cmp(&self, other: &StandardHDPath) -> (r: Option<Ordering>) {
        Some(self.cmp(other))
    }
}

impl PartialOrdSpecImpl for StandardHDPath {
    open spec fn obeys_partial_cmp_spec() -> bool {
        true
    }

    open spec fn partial_cmp_spec(&self, other: &StandardHDPath) -> Option<Ordering> {
        Some(standard_order(*self, *other))
    }
}

impl TryFrom<CustomHDPath> for StandardHDPath {
    type Error = Error;

    fn try_from(value: CustomHDPath) -> (r: Result<StandardHDPath, Error>)
        ensures
            r matches Ok(path) ==> path.wf(),
    {
        StandardHDPath::from_segments(&value.0)
    }
}

impl TryFromSpecImpl<CustomHDPath> for StandardHDPath {
    open spec fn obeys_try_from_spec() -> bool {
        true
    }

    open spec fn try_from_spec(value: CustomHDPath) -> Result<StandardHDPath, Error> {
        standard_of(value@)
    }
}

impl<'a> TryFrom<&'a str> for StandardHDPath {
    type Error = Error;

    fn try_from(value: &'a str) -> (r: Result<StandardHDPath, Error>)
        ensures
            r matches Ok(path) ==> path.wf(),
    {
        StandardHDPath::parse(value.as_bytes())
    }
}

impl<'a> TryFromSpecImpl<&'a str> for StandardHDPath {
    open spec fn obeys_try_from_spec() -> bool {
        true
    }

    open spec fn try_from_spec(value: &'a str) -> Result<StandardHDPath, Error> {
        standard_of_text(value.spec_bytes())
    }
}

impl std::str::FromStr for StandardHDPath {
    type Err = Error;

    fn from_str(s: &str) -> (r: Result<StandardHDPath, Error>)
        ensures
            r == standard_of_text(s.spec_bytes()),
            r matches Ok(path) ==> path.wf(),
    {
        StandardHDPath::parse(s.as_bytes())
    }
}

impl From<StandardHDPath> for CustomHDPath {
    fn from(value: StandardHDPath) -> (c: CustomHDPath)
        ensures
            c@ == value.segments(),
            value.wf() ==> c.wf(),
    {
        let c = CustomHDPath(
            vec![
                value.purpose.as_value(),
                PathValue::Hardened(value.coin_type),
                PathValue::Hardened(value.account),
                PathValue::Normal(value.change),
                PathValue::Normal(value.index),
            ],
        );
        proof {
            assert(c@ =~= value.segments());
            if value.wf() {
                lemma_standard_segments(value);
            }
        }
        c
    }
}

impl FromSpecImpl<StandardHDPath> for CustomHDPath {
    /// Two vectors with the same contents need not be the same value, so
    /// what `from` returns is stated on the method, over the view of the
    /// path, and not as an equation with `from_spec`.
    open spec fn obeys_from_spec() -> bool {
        false
    }

    open spec fn from_spec(value: StandardHDPath) -> CustomHDPath {
        choose|c: CustomHDPath| c@ == value.segments()
    }
}

/// A standard path within range has five segments that make an admissible
/// path of the standard shape, and they stand for a path equal to it.
pub proof fn lemma_standard_segments(v: StandardHDPath)
    requires
        v.wf(),
    ensures
        valid_path(v.segments()),
        v.segments().len() == STANDARD_ARITY,
        standard_of(v.segments()) matches Ok(d) && standard_eq(d, v) && d.segments() == v.segments(),
{
    let p = v.segments();
    assert(p[0].wf() && p[1].wf() && p[2].wf() && p[3].wf() && p[4].wf());
}

/// The binary round trip: the binary form of a standard path within range
/// is read back as a path equal to it.
pub proof fn lemma_standard_bytes_round_trip(v: StandardHDPath)
    requires
        v.wf(),
    ensures
        standard_of_bytes(encode_path(v.segments())) matches Ok(d) && standard_eq(d, v)
            && d.segments() == v.segments(),
{
    lemma_standard_segments(v);
    lemma_decode_arity_round_trip(v.segments(), STANDARD_ARITY as nat);
}

/// The text round trip: the canonical text of a standard path within range
/// is read back as a path equal to it.
pub proof fn lemma_standard_text_round_trip(v: StandardHDPath)
    requires
        v.wf(),
    ensures
        standard_of_text(path_text(v.segments())) matches Ok(d) && standard_eq(d, v) && d.segments()
            == v.segments(),
{
    lemma_standard_segments(v);
    lemma_text_round_trip(v.segments());
}

/// The order of standard paths is a total order that agrees with their
/// equality.
pub proof fn lemma_standard_order(a: StandardHDPath, b: StandardHDPath, c: StandardHDPath)
    ensures
        standard_order(a, b) == Ordering::Equal <==> standard_eq(a, b),
        standard_order(a, b) == Ordering::Less <==> standard_order(b, a) == Ordering::Greater,
        standard_order(a, b) == Ordering::Less && standard_order(b, c) == Ordering::Less
            ==> standard_order(a, c) == Ordering::Less,
{
}

} // verus!
