//! The purpose of a path: its first segment, always hardened, which names the
//! convention that the rest of the path follows.

use std::cmp::Ordering;
use vstd::prelude::*;
use vstd::std_specs::cmp::{PartialEqSpecImpl, PartialOrdSpecImpl};
use vstd::std_specs::convert::{FromSpecImpl, TryFromSpecImpl};
use crate::errors::Error;
use crate::path_value::{PathValue, FIRST_BIT};

verus! {

/// The purpose of a path. The well-known codes have names; any other code
/// below `FIRST_BIT` is `Custom`. Two purposes are equal, and ordered, by
/// their codes alone: `Custom(44)` equals `Pubkey`.
#[derive(Debug, Clone, Copy, Eq, Hash)]
pub enum Purpose {
    /// `0'`
    Unspecified,
    /// `44'`
    Pubkey,
    /// `49'`
    ScriptHash,
    /// `84'`
    Witness,
    Custom(u32),
}

/// How two codes compare as plain numbers.
pub open spec fn code_order(a: u32, b: u32) -> Ordering {
    if a < b {
        Ordering::Less
    } else if a == b {
        Ordering::Equal
    } else {
        Ordering::Greater
    }
}

/// The order of two sequences of which `first` is how their first members
/// compare and `rest` how what follows them compares.
pub open spec fn then_order(first: Ordering, rest: Ordering) -> Ordering {
    match first {
        Ordering::Equal => rest,
        _ => first,
    }
}

/// Compares two numbers.
pub fn compare_numbers(a: u32, b: u32) -> (o: Ordering)
    ensures
        o == code_order(a, b),
{
    if a > b {
        Ordering::Greater
    } else if a == b {
        Ordering::Equal
    } else {
        Ordering::Less
    }
}

impl Purpose {
    /// The code of the purpose: the magnitude of the segment it stands for.
    pub open spec fn code(self) -> u32 {
        match self {
            Purpose::Unspecified => 0,
            Purpose::Pubkey => 44,
            Purpose::ScriptHash => 49,
            Purpose::Witness => 84,
            Purpose::Custom(n) => n,
        }
    }

    /// The range invariant: the code leaves the top bit free.
    pub open spec fn wf(self) -> bool {
        self.code() < FIRST_BIT
    }

    /// The segment that the purpose stands for: its code, hardened.
    pub open spec fn value(self) -> PathValue {
        PathValue::Hardened(self.code())
    }

    /// The purpose that a code stands for. 44, 49 and 84 give the named
    /// purposes and every other code below `FIRST_BIT` gives `Custom`, 0
    /// included. A code from `FIRST_BIT` on is refused.
    pub open spec fn of_code(code: u32) -> Result<Purpose, Error> {
        if code == 44 {
            Ok(Purpose::Pubkey)
        } else if code == 49 {
            Ok(Purpose::ScriptHash)
        } else if code == 84 {
            Ok(Purpose::Witness)
        } else if code < FIRST_BIT {
            Ok(Purpose::Custom(code))
        } else {
            Err(Error::HighBitIsSet)
        }
    }

    /// Tells whether the purpose keeps the range invariant. The named
    /// purposes always do.
    pub fn is_valid(&self) -> (ok: bool)
        ensures
            ok == self.wf(),
    {
        PathValue::is_ok(self.as_number())
    }

    /// The code of the purpose.
    pub fn as_number(&self) -> (n: u32)
        ensures
            n == self.code(),
    {
        match self {
            Purpose::Unspecified => 0,
            Purpose::Pubkey => 44,
            Purpose::ScriptHash => 49,
            Purpose::Witness => 84,
            Purpose::Custom(n) => *n,
        }
    }

    /// The first segment of a path with this purpose.
    pub fn as_value(&self) -> (v: PathValue)
        ensures
            v == self.value(),
            self.wf() ==> v.wf(),
    {
        PathValue::Hardened(self.as_number())
    }

    /// Compares two purposes by their codes.
    pub fn cmp(&self, other: &Purpose) -> (o: Ordering)
        ensures
            o == code_order(self.code(), other.code()),
    {
        compare_numbers(self.as_number(), other.as_number())
    }
}

impl PartialEq for Purpose {
    fn eq(&self, other: &Purpose) -> (r: bool) {
        self.as_number() == other.as_number()
    }
}

impl PartialEqSpecImpl for Purpose {
    open spec fn obeys_eq_spec() -> bool {
        true
    }

    open spec fn eq_spec(&self, other: &Purpose) -> bool {
        self.code() == other.code()
    }
}

impl PartialOrd for Purpose {
    fn partial_cmp(&self, other: &Purpose) -> (r: Option<Ordering>) {
        Some(self.cmp(other))
    }
}

impl PartialOrdSpecImpl for Purpose {
    open spec fn obeys_partial_cmp_spec() -> bool {
        true
    }

    open spec fn partial_cmp_spec(&self, other: &Purpose) -> Option<Ordering> {
        Some(code_order(self.code(), other.code()))
    }
}

impl TryFrom<u32> for Purpose {
    type Error = Error;

    fn try_from(value: u32) -> (r: Result<Purpose, Error>) {
        if value == 44 {
            Ok(Purpose::Pubkey)
        } else if value == 49 {
            Ok(Purpose::ScriptHash)
        } else if value == 84 {
            Ok(Purpose::Witness)
        } else if PathValue::is_ok(value) {
            Ok(Purpose::Custom(value))
        } else {
            Err(Error::HighBitIsSet)
        }
    }
}

impl TryFromSpecImpl<u32> for Purpose {
    open spec fn obeys_try_from_spec() -> bool {
        true
    }

    open spec fn try_from_spec(value: u32) -> Result<Purpose, Error> {
        Purpose::of_code(value)
    }
}

impl TryFrom<usize> for Purpose {
    type Error = Error;

    fn try_from(value: usize) -> (r: Result<Purpose, Error>) {
        if value >= FIRST_BIT as usize {
            Err(Error::HighBitIsSet)
        } else {
            Purpose::try_from(value as u32)
        }
    }
}

impl TryFromSpecImpl<usize> for Purpose {
    open spec fn obeys_try_from_spec() -> bool {
        true
    }

    /// A code that does not fit below `FIRST_BIT` is refused, however large.
    open spec fn try_from_spec(value: usize) -> Result<Purpose, Error> {
        if value >= FIRST_BIT {
            Err(Error::HighBitIsSet)
        } else {
            Purpose::of_code(value as u32)
        }
    }
}

impl TryFrom<i32> for Purpose {
    type Error = Error;

    fn try_from(value: i32) -> (r: Result<Purpose, Error>) {
        if value < 0 {
            Err(Error::InvalidPurpose(0))
        } else {
            Purpose::try_from(value as u32)
        }
    }
}

impl TryFromSpecImpl<i32> for Purpose {
    open spec fn obeys_try_from_spec() -> bool {
        true
    }

    /// A negative number is no purpose; any other is taken as a code.
    open spec fn try_from_spec(value: i32) -> Result<Purpose, Error> {
        if value < 0 {
            Err(Error::InvalidPurpose(0))
        } else {
            Purpose::of_code(value as u32)
        }
    }
}

impl TryFrom<PathValue> for Purpose {
    type Error = Error;

    fn try_from(value: PathValue) -> (r: Result<Purpose, Error>) {
        Purpose::try_from(value.as_number())
    }
}

impl TryFromSpecImpl<PathValue> for Purpose {
    open spec fn obeys_try_from_spec() -> bool {
        true
    }

    /// The magnitude of the segment is taken as the code, whatever its tag.
    open spec fn try_from_spec(value: PathValue) -> Result<Purpose, Error> {
        Purpose::of_code(value.number())
    }
}

impl From<Purpose> for u32 {
    fn from(value: Purpose) -> (r: u32) {
        value.as_number()
    }
}

impl FromSpecImpl<Purpose> for u32 {
    open spec fn obeys_from_spec() -> bool {
        true
    }

    open spec fn from_spec(value: Purpose) -> u32 {
        value.code()
    }
}

impl<'a> From<&'a Purpose> for u32 {
    fn from(value: &'a Purpose) -> (r: u32) {
        value.as_number()
    }
}

impl<'a> FromSpecImpl<&'a Purpose> for u32 {
    open spec fn obeys_from_spec() -> bool {
        true
    }

    open spec fn from_spec(value: &'a Purpose) -> u32 {
        value.code()
    }
}

/// A code below `FIRST_BIT` gives a purpose with that code, which keeps the
/// range invariant; any other code is refused as `HighBitIsSet`.
pub proof fn lemma_purpose_of_code(code: u32)
    ensures
        match Purpose::of_code(code) {
            Ok(p) => code < FIRST_BIT && p.code() == code && p.wf(),
            Err(e) => code >= FIRST_BIT && e == Error::HighBitIsSet,
        },
{
}

} // verus!
