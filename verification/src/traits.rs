//! What every kind of path can do: tell its length, hand out a segment by
//! its place, and from these two write its binary form, name its parent and
//! turn into a generic path.

use bitcoin::bip32::{ChildNumber, DerivationPath};
use vstd::prelude::*;
use crate::codec::{append_word, encode_path, words_bytes};
use crate::derivation::{
    child_number_word, child_number_words, derivation_path_from, derivation_words, path_words,
};
use crate::path_custom::CustomHDPath;
use crate::path_value::{valid_path, PathValue};

verus! {

/// A path: a sequence of at most 255 segments, in the order of derivation
/// from the root.
pub trait HDPath {
    /// The segments of the path, in order.
    spec fn segments(&self) -> Seq<PathValue>;

    /// The invariant of the path, which those who make a path establish and
    /// which every operation asks for.
    spec fn wf(&self) -> bool;

    /// A path that keeps its invariant has at most 255 segments, each within
    /// range.
    proof fn lemma_wf(&self)
        requires
            self.wf(),
        ensures
            valid_path(self.segments()),
    ;

    /// The number of segments.
    fn len(&self) -> (n: u8)
        requires
            self.wf(),
        ensures
            n == self.segments().len(),
    ;

    /// The segment at place `pos`, counted from 0, or `None` if the path
    /// ends before it.
    fn get(&self, pos: u8) -> (v: Option<PathValue>)
        requires
            self.wf(),
        ensures
            v == (if pos < self.segments().len() {
                Some(self.segments()[pos as int])
            } else {
                None
            }),
    ;

    /// The binary form of the path: the number of segments in one byte, then
    /// the raw word of each segment, most significant byte first.
    fn to_bytes(&self) -> (out: Vec<u8>)
        requires
            self.wf(),
        ensures
            out@ == encode_path(self.segments()),
    {
        proof {
            self.lemma_wf();
        }
        let len = self.len();
        let mut buf: Vec<u8> = Vec::with_capacity(1 + 4 * (len as usize));
        buf.push(len);
        assert(self.segments().take(0) =~= Seq::<PathValue>::empty());
        let mut i: u8 = 0;
        while i < len
            invariant
                i <= len,
                len == self.segments().len(),
                self.wf(),
                valid_path(self.segments()),
                buf@ == seq![len] + words_bytes(self.segments().take(i as int)),
            decreases len - i,
        {
            match self.get(i) {
                Some(v) => {
                    append_word(&mut buf, v.to_raw());
                    proof {
                        let q = self.segments().take(i + 1);
                        assert(q.drop_last() =~= self.segments().take(i as int));
                        assert(q.last() == v);
                    }
                },
                None => {},
            }
            i += 1;
        }
        assert(self.segments().take(i as int) =~= self.segments());
        buf
    }

    /// The path without its last segment, or `None` if the path has no
    /// segment.
    fn parent(&self) -> (p: Option<CustomHDPath>)
        requires
            self.wf(),
        ensures
            match p {
                Some(c) => self.segments().len() > 0 && c@ == self.segments().drop_last()
                    && valid_path(c@),
                None => self.segments().len() == 0,
            },
    {
        proof {
            self.lemma_wf();
        }
        let len = self.len();
        if len == 0 {
            return None;
        }
        let mut path: Vec<PathValue> = Vec::with_capacity(len as usize - 1);
        let mut i: u8 = 0;
        while i < len - 1
            invariant
                0 < len,
                i <= len - 1,
                len == self.segments().len(),
                self.wf(),
                path@ == self.segments().take(i as int),
            decreases len - i,
        {
            match self.get(i) {
                Some(v) => {
                    path.push(v);
                },
                None => {},
            }
            i += 1;
        }
        assert(path@ =~= self.segments().drop_last());
        Some(CustomHDPath(path))
    }

    /// The same path as a generic path.
    fn as_custom(&self) -> (c: CustomHDPath)
        requires
            self.wf(),
        ensures
            c@ == self.segments(),
            valid_path(c@),
    {
        proof {
            self.lemma_wf();
        }
        let len = self.len();
        let mut path: Vec<PathValue> = Vec::with_capacity(len as usize);
        let mut i: u8 = 0;
        while i < len
            invariant
                i <= len,
                len == self.segments().len(),
                self.wf(),
                path@ == self.segments().take(i as int),
            decreases len - i,
        {
            match self.get(i) {
                Some(v) => {
                    path.push(v);
                },
                None => {},
            }
            i += 1;
        }
        assert(path@ =~= self.segments());
        CustomHDPath(path)
    }

    /// The child numbers of the `bitcoin` crate that stand for the segments,
    /// in order.
    fn to_child_numbers(&self) -> (children: Vec<ChildNumber>)
        requires
            self.wf(),
        ensures
            child_number_words(children@) == path_words(self.segments()),
    {
        proof {
            self.lemma_wf();
        }
        let len = self.len();
        let mut children: Vec<ChildNumber> = Vec::with_capacity(len as usize);
        let mut i: u8 = 0;
        while i < len
            invariant
                i <= len,
                len == self.segments().len(),
                self.wf(),
                valid_path(self.segments()),
                children@.len() == i,
                forall|j: int|
                    0 <= j < i ==> child_number_word(#[trigger] children@[j])
                        == self.segments()[j].raw(),
            decreases len - i,
        {
            match self.get(i) {
                Some(v) => {
                    children.push(v.as_child_number());
                },
                None => {},
            }
            i += 1;
        }
        assert(child_number_words(children@) =~= path_words(self.segments()));
        children
    }

    /// The derivation path of the `bitcoin` crate that stands for the path.
    fn as_bitcoin(&self) -> (path: DerivationPath)
        requires
            self.wf(),
        ensures
            derivation_words(path) == path_words(self.segments()),
    {
        derivation_path_from(self.to_child_numbers())
    }
}

} // verus!
