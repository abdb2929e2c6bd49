//! The account path, `m/purpose'/coin_type'/account'`: the part that the
//! addresses of one account have in common.

use vstd::prelude::*;
use vstd::slice::slice_subrange;
use vstd::std_specs::cmp::PartialEqSpecImpl;
use vstd::std_specs::convert::{FromSpecImpl, TryFromSpecImpl};
use vstd::string::*;
use vstd::utf8::encode_utf8;
use crate::ascii::{as_chars, lemma_ascii_bytes};
use crate::codec::encode_path;
use crate::decimal::{decimal_text, is_digit, lemma_decimal_text_digits};
use crate::errors::Error;
use crate::path_custom::CustomHDPath;
use crate::path_standard::{standard_field_error, StandardHDPath};
use crate::path_value::{valid_path, PathValue, FIRST_BIT};
use crate::purpose::Purpose;
use crate::shape::{
    check_shape, decode_arity, decode_with_arity, lemma_decode_arity_round_trip, shape_purpose,
    ACCOUNT_ARITY,
};
use crate::text::{
    lemma_path_text_ascii, lemma_tail_text_push, lemma_text_round_trip, parse_path, path_text,
    path_to_string, segment_text, tail_text, ROOT, SLASH,
};
use crate::traits::HDPath;

verus! {

/// A path of three segments, all hardened: purpose, coin type and account.
/// The fields hold the magnitudes.
#[derive(Debug, Clone, Copy, Eq, Hash)]
pub struct AccountHDPath {
    pub purpose: Purpose,
    pub coin_type: u32,
    pub account: u32,
}

/// `x`, which stands in the text of an account path where an address would
/// have its change and index.
pub const UNUSED: u8 = 120;

/// `/x/x`, which the text of an account path ends with.
pub open spec fn unused_suffix() -> Seq<u8> {
    seq![SLASH, UNUSED, SLASH, UNUSED]
}

/// The text without `/x/x` at its end, if it ends so; else the text itself.
pub open spec fn strip_unused(s: Seq<u8>) -> Seq<u8> {
    if s.len() >= 4 && s.skip(s.len() - 4) == unused_suffix() {
        s.take(s.len() - 4)
    } else {
        s
    }
}

/// The first of the three fields, in the order purpose, coin type, account,
/// whose value is out of range, with its name; `None` if all are within
/// range.
pub open spec fn account_field_error(purpose: Purpose, coin_type: u32, account: u32) -> Option<
    (Seq<char>, u32),
> {
    if !purpose.wf() {
        Some(("purpose"@, purpose.code()))
    } else if coin_type >= FIRST_BIT {
        Some(("coin_type"@, coin_type))
    } else if account >= FIRST_BIT {
        Some(("account"@, account))
    } else {
        None
    }
}

/// The account path that a sequence of segments stands for, or why it stands
/// for none. The sequence must have exactly three segments.
pub open spec fn account_of(p: Seq<PathValue>) -> Result<AccountHDPath, Error> {
    match shape_purpose(p, ACCOUNT_ARITY as nat) {
        Err(e) => Err(e),
        Ok(purpose) => Ok(
            AccountHDPath { purpose, coin_type: p[1].number(), account: p[2].number() },
        ),
    }
}

/// The account path that a buffer stands for. A buffer that has not the
/// layout of a path, or counts another number of segments than three, is
/// `InvalidFormat`; three segments that have not the account shape are
/// refused as by `account_of`.
pub open spec fn account_of_bytes(b: Seq<u8>) -> Result<AccountHDPath, Error> {
    match decode_arity(b, ACCOUNT_ARITY as nat) {
        Err(e) => Err(e),
        Ok(p) => account_of(p),
    }
}

/// The first three segments of `p`, or all of `p` if it has fewer.
pub open spec fn account_part(p: Seq<PathValue>) -> Seq<PathValue> {
    if p.len() > ACCOUNT_ARITY {
        p.take(ACCOUNT_ARITY as int)
    } else {
        p
    }
}

/// The account path that a text stands for. A `/x/x` at the end of the text
/// is left out; of what the rest reads as, the first three segments must
/// make an account path, and what follows them is left out as well.
pub open spec fn account_of_text(s: Seq<u8>) -> Result<AccountHDPath, Error> {
    match parse_path(strip_unused(s)) {
        Err(e) => Err(e),
        Ok(p) => account_of(account_part(p)),
    }
}

/// The text of an account path: that of its three segments, and `/x/x`.
pub open spec fn account_text(v: AccountHDPath) -> Seq<u8> {
    path_text(v.segments()) + unused_suffix()
}

/// Whether two account paths are equal: their purposes have the same code
/// and their other fields are the same.
pub open spec fn account_eq(a: AccountHDPath, b: AccountHDPath) -> bool {
    a.purpose.code() == b.purpose.code() && a.coin_type == b.coin_type && a.account == b.account
}

/// The account path that a standard path lies under.
pub open spec fn account_above(v: StandardHDPath) -> AccountHDPath {
    AccountHDPath { purpose: v.purpose, coin_type: v.coin_type, account: v.account }
}

impl AccountHDPath {
    /// Tells whether the path keeps its invariant.
    pub fn is_valid(&self) -> (ok: bool)
        ensures
            ok == self.wf(),
    {
        self.purpose.is_valid() && PathValue::is_ok(self.coin_type) && PathValue::is_ok(
            self.account,
        )
    }

    /// Makes an account path of values that the caller knows to be within
    /// range.
    pub fn new(purpose: Purpose, coin_type: u32, account: u32) -> (path: AccountHDPath)
        requires
            account_field_error(purpose, coin_type, account) is None,
        ensures
            path == (AccountHDPath { purpose, coin_type, account }),
            path.wf(),
    {
        AccountHDPath { purpose, coin_type, account }
    }

    /// Makes an account path, or names the first field whose value is out of
    /// range and gives that value.
    pub fn try_new(purpose: Purpose, coin_type: u32, account: u32) -> (r: Result<
        AccountHDPath,
        (String, u32),
    >)
        ensures
            match account_field_error(purpose, coin_type, account) {
                None => r == Ok::<AccountHDPath, (String, u32)>(
                    AccountHDPath { purpose, coin_type, account },
                ),
                Some((name, value)) => r matches Err((n, v)) && n@ == name && v == value,
            },
            r matches Ok(path) ==> path.wf(),
    {
        if let Purpose::Custom(n) = purpose {
            if !PathValue::is_ok(n) {
                return Err((String::from_str("purpose"), n));
            }
        }
        if !PathValue::is_ok(coin_type) {
            return Err((String::from_str("coin_type"), coin_type));
        }
        if !PathValue::is_ok(account) {
            return Err((String::from_str("account"), account));
        }
        Ok(AccountHDPath { purpose, coin_type, account })
    }

    /// The path of the address at `change` and `index` under this account,
    /// or the name and value of the first field that is out of range.
    pub fn address_at(&self, change: u32, index: u32) -> (r: Result<StandardHDPath, (String, u32)>)
        ensures
            match standard_field_error(self.purpose, self.coin_type, self.account, change, index) {
                None => r == Ok::<StandardHDPath, (String, u32)>(
                    StandardHDPath {
                        purpose: self.purpose,
                        coin_type: self.coin_type,
                        account: self.account,
                        change,
                        index,
                    },
                ),
                Some((name, value)) => r matches Err((n, v)) && n@ == name && v == value,
            },
            r matches Ok(path) ==> path.wf() && account_above(path) == *self,
    {
        StandardHDPath::try_new(self.purpose, self.coin_type, self.account, change, index)
    }

    /// The purpose of the path.
    pub fn purpose(&self) -> (p: &Purpose)
        ensures
            *p == self.purpose,
    {
        &self.purpose
    }

    /// The magnitude of the coin type.
    pub fn coin_type(&self) -> (n: u32)
        ensures
            n == self.coin_type,
    {
        self.coin_type
    }

    /// The magnitude of the account.
    pub fn account(&self) -> (n: u32)
        ensures
            n == self.account,
    {
        self.account
    }

    /// The account path that the given segments stand for.
    pub fn from_segments(path: &Vec<PathValue>) -> (r: Result<AccountHDPath, Error>)
        ensures
            r == account_of(path@),
            r matches Ok(path) ==> path.wf(),
    {
        match check_shape(path, ACCOUNT_ARITY) {
            Err(e) => Err(e),
            Ok(purpose) => Ok(
                AccountHDPath {
                    purpose,
                    coin_type: path[1].as_number(),
                    account: path[2].as_number(),
                },
            ),
        }
    }

    /// Reads an account path from its binary form: the count 3 and three
    /// words.
    pub fn from_bytes(path: &[u8]) -> (r: Result<AccountHDPath, Error>)
        ensures
            r == account_of_bytes(path@),
            r matches Ok(path) ==> path.wf(),
    {
        match decode_with_arity(path, ACCOUNT_ARITY) {
            Err(e) => Err(e),
            Ok(keys) => AccountHDPath::from_segments(&keys),
        }
    }

    /// Reads an account path from its text, given as bytes. The text may end
    /// in `/x/x`, and it may go on behind the account, as the path of an
    /// address does.
    pub fn parse(text: &[u8]) -> (r: Result<AccountHDPath, Error>)
        ensures
            r == account_of_text(text@),
            r matches Ok(path) ==> path.wf(),
    {
        let n = text.len();
        let clean = if n >= 4 && text[n - 4] == SLASH && text[n - 3] == UNUSED && text[n - 2]
            == SLASH && text[n - 1] == UNUSED {
            assert(text@.skip(n - 4) =~= unused_suffix());
            assert(text@.subrange(0, n - 4) =~= text@.take(n - 4));
            slice_subrange(text, 0, n - 4)
        } else {
            proof {
                if n >= 4 {
                    let tail = text@.skip(n - 4);
                    assert(tail[0] == text@[n - 4] && tail[1] == text@[n - 3] && tail[2] == text@[n
                        - 2] && tail[3] == text@[n - 1]);
                }
            }
            text
        };
        match CustomHDPath::parse(clean) {
            Err(e) => Err(e),
            Ok(custom) => {
                if custom.0.len() > ACCOUNT_ARITY {
                    let part = vec![custom.0[0], custom.0[1], custom.0[2]];
                    assert(part@ =~= custom@.take(ACCOUNT_ARITY as int));
                    AccountHDPath::from_segments(&part)
                } else {
                    AccountHDPath::from_segments(&custom.0)
                }
            },
        }
    }

    /// The text of the path, `m/44'/0'/0'/x/x`.
    pub fn to_string(&self) -> (s: String)
        ensures
            s@ == as_chars(account_text(*self)),
            encode_utf8(s@) == account_text(*self),
    {
        let all = vec![
            self.purpose.as_value(),
            PathValue::Hardened(self.coin_type),
            PathValue::Hardened(self.account),
        ];
        assert(all@ =~= self.segments());
        let mut s = path_to_string(&all);
        proof {
            reveal_strlit("/x/x");
        }
        s.append("/x/x");
        proof {
            assert("/x/x"@ =~= as_chars(unused_suffix()));
            assert(s@ =~= as_chars(account_text(*self)));
            lemma_path_text_ascii(self.segments());
            lemma_ascii_bytes(account_text(*self));
        }
        s
    }
}

impl HDPath for AccountHDPath {
    open spec fn segments(&self) -> Seq<PathValue> {
        seq![
            self.purpose.value(),
            PathValue::Hardened(self.coin_type),
            PathValue::Hardened(self.account),
        ]
    }

    /// The invariant of an account path: every field is within range.
    open spec fn wf(&self) -> bool {
        account_field_error(self.purpose, self.coin_type, self.account) is None
    }

    proof fn lemma_wf(&self) {
        lemma_account_segments(*self);
    }

    fn len(&self) -> (n: u8) {
        3
    }

    fn get(&self, pos: u8) -> (v: Option<PathValue>) {
        match pos {
            0 => Some(self.purpose.as_value()),
            1 => Some(PathValue::Hardened(self.coin_type)),
            2 => Some(PathValue::Hardened(self.account)),
            _ => None,
        }
    }
}

impl PartialEq for AccountHDPath {
    fn eq(&self, other: &AccountHDPath) -> (r: bool) {
        self.purpose == other.purpose && self.coin_type == other.coin_type && self.account
            == other.account
    }
}

impl PartialEqSpecImpl for AccountHDPath {
    open spec fn obeys_eq_spec() -> bool {
        true
    }

    open spec fn eq_spec(&self, other: &AccountHDPath) -> bool {
        account_eq(*self, *other)
    }
}

impl<'a> From<&'a StandardHDPath> for AccountHDPath {
    fn from(value: &'a StandardHDPath) -> (r: AccountHDPath)
        ensures
            value.wf() ==> r.wf(),
    {
        AccountHDPath {
            purpose: value.purpose,
            coin_type: value.coin_type,
            account: value.account,
        }
    }
}

impl<'a> FromSpecImpl<&'a StandardHDPath> for AccountHDPath {
    open spec fn obeys_from_spec() -> bool {
        true
    }

    open spec fn from_spec(value: &'a StandardHDPath) -> AccountHDPath {
        account_above(*value)
    }
}

impl From<StandardHDPath> for AccountHDPath {
    fn from(value: StandardHDPath) -> (r: AccountHDPath)
        ensures
            value.wf() ==> r.wf(),
    {
        AccountHDPath {
            purpose: value.purpose,
            coin_type: value.coin_type,
            account: value.account,
        }
    }
}

impl FromSpecImpl<StandardHDPath> for AccountHDPath {
    open spec fn obeys_from_spec() -> bool {
        true
    }

    open spec fn from_spec(value: StandardHDPath) -> AccountHDPath {
        account_above(value)
    }
}

impl TryFrom<CustomHDPath> for AccountHDPath {
    type Error = Error;

    fn try_from(value: CustomHDPath) -> (r: Result<AccountHDPath, Error>)
        ensures
            r matches Ok(path) ==> path.wf(),
    {
        AccountHDPath::from_segments(&value.0)
    }
}

impl TryFromSpecImpl<CustomHDPath> for AccountHDPath {
    open spec fn obeys_try_from_spec() -> bool {
        true
    }

    open spec fn try_from_spec(value: CustomHDPath) -> Result<AccountHDPath, Error> {
        account_of(value@)
    }
}

impl<'a> TryFrom<&'a str> for AccountHDPath {
    type Error = Error;

    fn try_from(value: &'a str) -> (r: Result<AccountHDPath, Error>)
        ensures
            r matches Ok(path) ==> path.wf(),
    {
        AccountHDPath::parse(value.as_bytes())
    }
}

impl<'a> TryFromSpecImpl<&'a str> for AccountHDPath {
    open spec fn obeys_try_from_spec() -> bool {
        true
    }

    open spec fn try_from_spec(value: &'a str) -> Result<AccountHDPath, Error> {
        account_of_text(value.spec_bytes())
    }
}

impl std::str::FromStr for AccountHDPath {
    type Err = Error;

    fn from_str(s: &str) -> (r: Result<AccountHDPath, Error>)
        ensures
            r == account_of_text(s.spec_bytes()),
            r matches Ok(path) ==> path.wf(),
    {
        AccountHDPath::parse(s.as_bytes())
    }
}

/// An account path within range has three segments that make an admissible
/// path of the account shape, and they stand for a path equal to it.
pub proof fn lemma_account_segments(v: AccountHDPath)
    requires
        v.wf(),
    ensures
        valid_path(v.segments()),
        v.segments().len() == ACCOUNT_ARITY,
        account_of(v.segments()) matches Ok(d) && account_eq(d, v) && d.segments() == v.segments(),
{
    let p = v.segments();
    assert(p[0].wf() && p[1].wf() && p[2].wf());
}

/// The binary round trip: the binary form of an account path within range
/// is read back as a path equal to it.
pub proof fn lemma_account_bytes_round_trip(v: AccountHDPath)
    requires
        v.wf(),
    ensures
        account_of_bytes(encode_path(v.segments())) matches Ok(d) && account_eq(d, v),
{
    lemma_account_segments(v);
    lemma_decode_arity_round_trip(v.segments(), ACCOUNT_ARITY as nat);
}

/// The text round trip: the text of an account path within range, with or
/// without `/x/x` at its end, is read back as a path equal to it.
pub proof fn lemma_account_text_round_trip(v: AccountHDPath)
    requires
        v.wf(),
    ensures
        account_of_text(account_text(v)) matches Ok(d) && account_eq(d, v),
        account_of_text(path_text(v.segments())) matches Ok(d) && account_eq(d, v),
{
    lemma_account_segments(v);
    lemma_text_round_trip(v.segments());
    let t = path_text(v.segments());
    let s = account_text(v);
    assert(s.skip(s.len() - 4) =~= unused_suffix());
    assert(s.take(s.len() - 4) =~= t);
    lemma_text_ends_in_segment(v.segments());
    assert(strip_unused(t) == t) by {
        if t.len() >= 4 {
            assert(t.skip(t.len() - 4)[3] == t[t.len() - 1]);
        }
    }
}

/// Derivation is consistent: the address at `change` and `index` under an
/// account is the standard path that the text of the account, followed by
/// those two as normal segments, stands for; and the account above that
/// address is the account again.
pub proof fn lemma_address_under_account(a: AccountHDPath, change: u32, index: u32)
    requires
        a.wf(),
        change < FIRST_BIT,
        index < FIRST_BIT,
    ensures
        ({
            let address = StandardHDPath {
                purpose: a.purpose,
                coin_type: a.coin_type,
                account: a.account,
                change,
                index,
            };
            &&& address.wf()
            &&& address.segments() == a.segments() + seq![
                PathValue::Normal(change),
                PathValue::Normal(index),
            ]
            &&& account_above(address) == a
            &&& account_of(address.segments().take(ACCOUNT_ARITY as int)) matches Ok(d)
                && account_eq(d, a)
        }),
{
    let address = StandardHDPath {
        purpose: a.purpose,
        coin_type: a.coin_type,
        account: a.account,
        change,
        index,
    };
    assert(address.segments() =~= a.segments() + seq![
        PathValue::Normal(change),
        PathValue::Normal(index),
    ]);
    assert(address.segments().take(ACCOUNT_ARITY as int) =~= a.segments());
    lemma_account_segments(a);
}

/// The text of a path with at least one segment never ends in `x`: it ends
/// in a digit or an apostrophe.
pub proof fn lemma_text_ends_in_segment(p: Seq<PathValue>)
    requires
        p.len() > 0,
    ensures
        path_text(p).len() >= 3,
        path_text(p).last() != UNUSED,
{
    lemma_tail_text_push(p.drop_last(), p.last());
    assert(p.drop_last().push(p.last()) =~= p);
    lemma_decimal_text_digits(p.last().number() as nat);
    let seg = segment_text(p.last());
    let d = decimal_text(p.last().number() as nat);
    assert(is_digit(d.last()));
    assert(seg.len() >= 1 && seg.last() != UNUSED);
    let t = path_text(p);
    assert(t =~= seq![ROOT] + tail_text(p.drop_last()) + seq![SLASH] + seg);
    assert(t.last() == seg.last());
}

} // verus!
