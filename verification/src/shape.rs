//! The fixed shapes: paths of three, four or five segments whose first three
//! segments are hardened and whose other segments are not. This is the check
//! that a generic path has such a shape.

use vstd::prelude::*;
use crate::codec::{decode_path, decode_segments, encode_path, lemma_codec_round_trip};
use crate::errors::Error;
use crate::path_value::{all_wf, valid_path, PathValue};
use crate::purpose::Purpose;

verus! {

/// The number of segments at the front of a fixed shape that are hardened:
/// purpose, coin type and account.
pub const HARDENED_SEGMENTS: usize = 3;

/// The number of segments of an account path.
pub const ACCOUNT_ARITY: usize = 3;

/// The number of segments of a short path.
pub const SHORT_ARITY: usize = 4;

/// The number of segments of a standard path.
pub const STANDARD_ARITY: usize = 5;

/// Whether the first `HARDENED_SEGMENTS` segments of `p` are hardened and
/// all others are normal.
pub open spec fn fits_pattern(p: Seq<PathValue>) -> bool {
    forall|i: int| 0 <= i < p.len() ==> ((#[trigger] p[i]) is Hardened <==> i < HARDENED_SEGMENTS)
}

/// The purpose of a path of `arity` segments that has a fixed shape, or why
/// the path has no such shape. The checks come in this order: the length,
/// with the length found; that the first segment is hardened; that its
/// magnitude is a purpose; that the other segments are hardened or normal
/// as the shape demands; that every magnitude is within range.
pub open spec fn shape_purpose(p: Seq<PathValue>, arity: nat) -> Result<Purpose, Error>
    recommends
        arity >= 1,
{
    if p.len() != arity {
        Err(Error::InvalidLength(p.len() as usize))
    } else if p[0] is Normal {
        Err(Error::InvalidStructure)
    } else {
        match Purpose::of_code(p[0].number()) {
            Err(e) => Err(e),
            Ok(purpose) => if !fits_pattern(p) {
                Err(Error::InvalidStructure)
            } else if !all_wf(p) {
                Err(Error::HighBitIsSet)
            } else {
                Ok(purpose)
            },
        }
    }
}

/// The segments that a buffer stands for, where it must count exactly
/// `arity` of them. A buffer that has not the layout of a path, or counts
/// another number of segments, is `InvalidFormat`.
pub open spec fn decode_arity(b: Seq<u8>, arity: nat) -> Result<Seq<PathValue>, Error> {
    match decode_path(b) {
        Err(e) => Err(e),
        Ok(p) => if p.len() != arity {
            Err(Error::InvalidFormat)
        } else {
            Ok(p)
        },
    }
}

/// The binary form of an admissible path of `arity` segments is read back,
/// under that arity, as the path.
pub proof fn lemma_decode_arity_round_trip(p: Seq<PathValue>, arity: nat)
    requires
        valid_path(p),
        p.len() == arity,
    ensures
        decode_arity(encode_path(p), arity) == Ok::<Seq<PathValue>, Error>(p),
{
    lemma_codec_round_trip(p);
}

/// A path has a fixed shape exactly if it has the right length, fits the
/// pattern and keeps every magnitude within range; then its purpose is the
/// one that the magnitude of its first segment stands for.
pub proof fn lemma_shape_purpose(p: Seq<PathValue>, arity: nat)
    requires
        arity >= 1,
    ensures
        shape_purpose(p, arity) is Ok <==> p.len() == arity && fits_pattern(p) && all_wf(p),
        shape_purpose(p, arity) matches Ok(purpose) ==> purpose.wf() && purpose.code()
            == p[0].number() && Purpose::of_code(p[0].number()) == Ok::<Purpose, Error>(purpose),
        shape_purpose(p, arity) matches Err(e) ==> e == Error::InvalidLength(p.len() as usize) || e
            == Error::InvalidStructure || e == Error::HighBitIsSet,
{
    if p.len() == arity && fits_pattern(p) && all_wf(p) {
        assert(p[0] is Hardened);
        assert(p[0].wf());
    }
}

/// Checks that `path` has a fixed shape of `arity` segments and gives its
/// purpose.
pub fn check_shape(path: &Vec<PathValue>, arity: usize) -> (r: Result<Purpose, Error>)
    requires
        arity >= 1,
    ensures
        r == shape_purpose(path@, arity as nat),
{
    if path.len() != arity {
        return Err(Error::InvalidLength(path.len()));
    }
    let purpose = match path[0] {
        PathValue::Hardened(p) => match Purpose::try_from(p) {
            Ok(purpose) => purpose,
            Err(e) => {
                return Err(e);
            },
        },
        PathValue::Normal(_) => {
            return Err(Error::InvalidStructure);
        },
    };
    let mut i: usize = 1;
    while i < arity
        invariant
            1 <= i <= arity,
            arity == path@.len(),
            path@[0] is Hardened,
            Purpose::of_code(path@[0].number()) == Ok::<Purpose, Error>(purpose),
            forall|j: int| 0 <= j < i ==> ((#[trigger] path@[j]) is Hardened <==> j < HARDENED_SEGMENTS),
        decreases arity - i,
    {
        let hardened = match path[i] {
            PathValue::Hardened(_) => true,
            PathValue::Normal(_) => false,
        };
        if hardened != (i < HARDENED_SEGMENTS) {
            return Err(Error::InvalidStructure);
        }
        i += 1;
    }
    let mut k: usize = 1;
    assert(path@[0].wf());
    while k < arity
        invariant
            1 <= k <= arity,
            arity == path@.len(),
            fits_pattern(path@),
            path@[0] is Hardened,
            Purpose::of_code(path@[0].number()) == Ok::<Purpose, Error>(purpose),
            forall|j: int| 0 <= j < k ==> (#[trigger] path@[j]).wf(),
        decreases arity - k,
    {
        if !PathValue::is_ok(path[k].as_number()) {
            return Err(Error::HighBitIsSet);
        }
        k += 1;
    }
    Ok(purpose)
}

/// Reads from a buffer the segments of a path that must have exactly
/// `arity` of them.
pub fn decode_with_arity(buf: &[u8], arity: usize) -> (r: Result<Vec<PathValue>, Error>)
    ensures
        match r {
            Ok(p) => decode_arity(buf@, arity as nat) == Ok::<Seq<PathValue>, Error>(p@),
            Err(e) => decode_arity(buf@, arity as nat) == Err::<Seq<PathValue>, Error>(e),
        },
{
    match decode_segments(buf) {
        Err(e) => Err(e),
        Ok(keys) => {
            if keys.len() != arity {
                Err(Error::InvalidFormat)
            } else {
                Ok(keys)
            }
        },
    }
}

} // verus!
