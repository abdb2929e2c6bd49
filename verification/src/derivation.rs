//! Paths as the `bitcoin` crate holds them: its child numbers and derivation
//! paths, made from the segments of a path by way of their raw words.

use bitcoin::bip32::{ChildNumber, DerivationPath};
use vstd::prelude::*;
use crate::path_value::PathValue;
use crate::purpose::Purpose;

verus! {

/// `bitcoin::bip32::ChildNumber`, declared so that it can stand in
/// signatures. Nothing is known of what a value of it holds but its raw
/// word, `child_number_word`.
#[verifier::external_type_specification]
#[verifier::external_body]
pub struct ExChildNumber(bitcoin::bip32::ChildNumber);

/// `bitcoin::bip32::DerivationPath`, declared so that it can stand in
/// signatures. Nothing is known of what a value of it holds but the raw
/// words of its child numbers, `derivation_words`.
#[verifier::external_type_specification]
#[verifier::external_body]
pub struct ExDerivationPath(bitcoin::bip32::DerivationPath);

/// The raw word of a child number, as `u32::from` gives it for a
/// `bitcoin::bip32::ChildNumber`: the index, with the top bit set iff the
/// child number is hardened.
pub uninterp spec fn child_number_word(c: ChildNumber) -> u32;

/// The raw words of the child numbers that a derivation path holds, in
/// order, as `bitcoin::bip32::DerivationPath::to_u32_vec` gives them.
pub uninterp spec fn derivation_words(p: DerivationPath) -> Seq<u32>;

/// The raw words of a sequence of child numbers.
pub open spec fn child_number_words(children: Seq<ChildNumber>) -> Seq<u32> {
    Seq::new(children.len(), |i: int| child_number_word(children[i]))
}

/// The raw words of the segments of a path.
pub open spec fn path_words(p: Seq<PathValue>) -> Seq<u32> {
    Seq::new(p.len(), |i: int| p[i].raw())
}

/// The child number that a raw word stands for.
///
/// This is `ChildNumber::from(u32)` of the `bitcoin` crate. It is believed,
/// not proved, that the child number it makes has the given word as its raw
/// word: it takes the top bit as the hardened mark and the other bits as the
/// index, for every word.
#[verifier::external_body]
pub(crate) fn child_number_from_word(word: u32) -> (c: ChildNumber)
    ensures
        child_number_word(c) == word,
{
    ChildNumber::from(word)
}

/// The derivation path of the given child numbers.
///
/// This is `DerivationPath::from(Vec<ChildNumber>)` of the `bitcoin` crate.
/// It is believed, not proved, that the path holds exactly the given child
/// numbers in their order.
#[verifier::external_body]
pub(crate) fn derivation_path_from(children: Vec<ChildNumber>) -> (p: DerivationPath)
    ensures
        derivation_words(p) == child_number_words(children@),
{
    DerivationPath::from(children)
}

impl PathValue {
    /// The child number that stands for the segment.
    pub fn as_child_number(&self) -> (c: ChildNumber)
        requires
            self.wf(),
        ensures
            child_number_word(c) == self.raw(),
    {
        child_number_from_word(self.to_raw())
    }
}

impl Purpose {
    /// The hardened child number that stands for the purpose.
    pub fn as_child_number(&self) -> (c: ChildNumber)
        requires
            self.wf(),
        ensures
            child_number_word(c) == self.value().raw(),
    {
        self.as_value().as_child_number()
    }
}

} // verus!
