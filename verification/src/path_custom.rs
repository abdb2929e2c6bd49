//! The generic path: any number of segments up to `MAX_SEGMENTS`, hardened
//! or not in any order.

use vstd::prelude::*;
use vstd::std_specs::cmp::PartialEqSpecImpl;
use vstd::std_specs::convert::TryFromSpecImpl;
use vstd::string::*;
use vstd::utf8::encode_utf8;
use crate::ascii::as_chars;
use crate::codec::{decode_path, decode_segments};
use crate::errors::Error;
use crate::path_value::{valid_path, PathValue, MAX_SEGMENTS};
use crate::text::{parse_path, parse_text, path_text, path_to_string};
use crate::traits::HDPath;

verus! {

/// A path of any length up to `MAX_SEGMENTS`, with hardened and normal
/// segments in any order.
#[derive(Debug, Eq, Hash)]
pub struct CustomHDPath(pub Vec<PathValue>);

impl Clone for CustomHDPath {
    fn clone(&self) -> (c: CustomHDPath)
        ensures
            c@ == self@,
    {
        let segments = self.0.clone();
        assert(segments@ =~= self.0@);
        CustomHDPath(segments)
    }
}

impl View for CustomHDPath {
    type V = Seq<PathValue>;

    open spec fn view(&self) -> Seq<PathValue> {
        self.0@
    }
}

/// What `r` holds, with the path taken by its segments.
pub open spec fn custom_view(r: Result<CustomHDPath, Error>) -> Result<Seq<PathValue>, Error> {
    match r {
        Ok(c) => Ok(c@),
        Err(e) => Err(e),
    }
}

impl CustomHDPath {
    /// Tells whether the path keeps its invariant.
    pub fn is_valid(&self) -> (ok: bool)
        ensures
            ok == self.wf(),
    {
        if self.0.len() > MAX_SEGMENTS {
            return false;
        }
        let mut i: usize = 0;
        while i < self.0.len()
            invariant
                i <= self.0.len(),
                self.0.len() <= MAX_SEGMENTS,
                forall|j: int| 0 <= j < i ==> (#[trigger] self@[j]).wf(),
            decreases self.0.len() - i,
        {
            if !self.0[i].is_valid() {
                return false;
            }
            i += 1;
        }
        true
    }

    /// Makes a path of the given segments. More than `MAX_SEGMENTS` of them
    /// are refused, with their number.
    pub fn try_new(values: Vec<PathValue>) -> (r: Result<CustomHDPath, Error>)
        ensures
            values@.len() > MAX_SEGMENTS ==> r == Err::<CustomHDPath, Error>(
                Error::InvalidLength(values@.len() as usize),
            ),
            values@.len() <= MAX_SEGMENTS ==> r == Ok::<CustomHDPath, Error>(CustomHDPath(values)),
    {
        if values.len() > MAX_SEGMENTS {
            Err(Error::InvalidLength(values.len()))
        } else {
            Ok(CustomHDPath(values))
        }
    }

    /// Reads a path from its text, given as bytes.
    pub fn parse(text: &[u8]) -> (r: Result<CustomHDPath, Error>)
        ensures
            custom_view(r) == parse_path(text@),
            r matches Ok(c) ==> c.wf() && c@.len() > 0,
    {
        match parse_text(text) {
            Ok(keys) => {
                proof {
                    crate::text::lemma_parse_path_valid(text@);
                }
                Ok(CustomHDPath(keys))
            },
            Err(e) => Err(e),
        }
    }

    /// Reads a path from its binary form.
    pub fn from_bytes(buf: &[u8]) -> (r: Result<CustomHDPath, Error>)
        ensures
            custom_view(r) == decode_path(buf@),
            r matches Ok(c) ==> c.wf(),
    {
        match decode_segments(buf) {
            Ok(keys) => Ok(CustomHDPath(keys)),
            Err(e) => Err(e),
        }
    }

    /// The generic path with the segments of `path`.
    pub fn from_path<P: HDPath + ?Sized>(path: &P) -> (c: CustomHDPath)
        requires
            path.wf(),
        ensures
            c@ == path.segments(),
            c.wf(),
    {
        path.as_custom()
    }

    /// The canonical text of the path.
    pub fn to_string(&self) -> (s: String)
        ensures
            s@ == as_chars(path_text(self@)),
            encode_utf8(s@) == path_text(self@),
    {
        path_to_string(&self.0)
    }
}

impl HDPath for CustomHDPath {
    open spec fn segments(&self) -> Seq<PathValue> {
        self@
    }

    /// The invariant of a generic path: at most `MAX_SEGMENTS` segments,
    /// each within range.
    open spec fn wf(&self) -> bool {
        valid_path(self@)
    }

    proof fn lemma_wf(&self) {
    }

    fn len(&self) -> (n: u8) {
        self.0.len() as u8
    }

    fn get(&self, pos: u8) -> (v: Option<PathValue>) {
        if (pos as usize) < self.0.len() {
            Some(self.0[pos as usize])
        } else {
            None
        }
    }
}

impl PartialEq for CustomHDPath {
    fn eq(&self, other: &CustomHDPath) -> (r: bool) {
        if self.0.len() != other.0.len() {
            return false;
        }
        let mut i: usize = 0;
        while i < self.0.len()
            invariant
                i <= self.0.len(),
                self.0.len() == other.0.len(),
                forall|j: int| 0 <= j < i ==> self.0@[j] == other.0@[j],
            decreases self.0.len() - i,
        {
            if self.0[i] != other.0[i] {
                return false;
            }
            i += 1;
        }
        assert(self.0@ =~= other.0@);
        true
    }
}

impl PartialEqSpecImpl for CustomHDPath {
    open spec fn obeys_eq_spec() -> bool {
        true
    }

    open spec fn eq_spec(&self, other: &CustomHDPath) -> bool {
        self@ == other@
    }
}

impl std::str::FromStr for CustomHDPath {
    type Err = Error;

    fn from_str(value: &str) -> (r: Result<CustomHDPath, Error>)
        ensures
            custom_view(r) == parse_path(value.spec_bytes()),
            r matches Ok(c) ==> c.wf() && c@.len() > 0,
    {
        CustomHDPath::parse(value.as_bytes())
    }
}

impl<'a> TryFrom<&'a str> for CustomHDPath {
    type Error = Error;

    fn try_from(value: &'a str) -> (r: Result<CustomHDPath, Error>)
        ensures
            custom_view(r) == parse_path(value.spec_bytes()),
            r matches Ok(c) ==> c.wf() && c@.len() > 0,
    {
        CustomHDPath::parse(value.as_bytes())
    }
}

impl<'a> TryFromSpecImpl<&'a str> for CustomHDPath {
    /// Two vectors with the same contents need not be the same value, so
    /// what `try_from` returns is stated on the method, over the view of the
    /// path, and not as an equation with `try_from_spec`.
    open spec fn obeys_try_from_spec() -> bool {
        false
    }

    open spec fn try_from_spec(value: &'a str) -> Result<CustomHDPath, Error> {
        match parse_path(value.spec_bytes()) {
            Ok(p) => Ok(choose|c: CustomHDPath| c@ == p),
            Err(e) => Err(e),
        }
    }
}

} // verus!
