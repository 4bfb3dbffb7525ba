//! Relative paths that cannot leave the directory they are joined onto.
//!
//! Entry names of an archive are chosen by whoever built the archive. A name
//! becomes a [`RelativePath`] only if its text is confined: it does not start
//! at a root, holds no NUL, and none of its segments is the parent directory.
//! Every write of an extraction goes to a `RelativePath` under the target.

use vstd::prelude::*;
use vstd::utf8::encode_utf8;

verus! {

/// The bytes of a path's text, as they reach the file system.
pub open spec fn path_bytes(text: Seq<char>) -> Seq<u8> {
    encode_utf8(text)
}

/// `/` and `\` both end a path segment.
pub open spec fn is_separator(b: u8) -> bool {
    b == 0x2f || b == 0x5c
}

/// A segment made of exactly two dots starts at position `i` of `p`.
pub open spec fn parent_segment_at(p: Seq<u8>, i: int) -> bool {
    &&& 0 <= i
    &&& i + 2 <= p.len()
    &&& p[i] == 0x2e
    &&& p[i + 1] == 0x2e
    &&& (i == 0 || is_separator(p[i - 1]))
    &&& (i + 2 == p.len() || is_separator(p[i + 2]))
}

/// `p` stays below the directory it is joined onto: it is not rooted, holds
/// no NUL byte and has no parent-directory segment.
pub open spec fn is_confined(p: Seq<u8>) -> bool {
    &&& (p.len() > 0 ==> !is_separator(p[0]))
    &&& (forall|i: int| 0 <= i < p.len() ==> p[i] != 0)
    &&& (forall|i: int| !parent_segment_at(p, i))
}

/// The name of a directory marker ends with `/`.
pub open spec fn is_directory_marker(name: Seq<u8>) -> bool {
    name.len() > 0 && name.last() == 0x2f
}

fn separator(b: u8) -> (r: bool)
    ensures
        r == is_separator(b),
{
    b == 0x2f || b == 0x5c
}

/// Decides [`is_confined`].
pub fn check_confined(p: &[u8]) -> (ok: bool)
    ensures
        ok == is_confined(p@),
{
    let n: usize = p.len();
    if n > 0 && separator(p[0]) {
        return false;
    }
    let mut i: usize = 0;
    while i < n
        invariant
            n == p@.len(),
            i <= n,
            forall|j: int| 0 <= j < i ==> p@[j] != 0,
            forall|j: int| 0 <= j < i ==> !parent_segment_at(p@, j),
        decreases n - i,
    {
        if p[i] == 0 {
            return false;
        }
        if p[i] == 0x2e && n - i >= 2 && p[i + 1] == 0x2e {
            let opens: bool = i == 0 || separator(p[i - 1]);
            let closes: bool = n - i == 2 || separator(p[i + 2]);
            if opens && closes {
                assert(parent_segment_at(p@, i as int));
                return false;
            }
        }
        i = i + 1;
    }
    true
}

/// Decides [`is_directory_marker`] for the name of an archive entry.
pub fn is_directory_name(name: &str) -> (marker: bool)
    ensures
        marker == is_directory_marker(path_bytes(name@)),
{
    let bytes = name.as_bytes();
    let n: usize = bytes.len();
    n > 0 && bytes[n - 1] == 0x2f
}

/// A relative path whose text is confined.
#[derive(Debug, PartialEq, Eq)]
pub struct RelativePath {
    text: String,
}

impl View for RelativePath {
    type V = Seq<char>;

    closed spec fn view(&self) -> Seq<char> {
        self.text@
    }
}

impl Clone for RelativePath {
    fn clone(&self) -> (copy: Self)
        ensures
            copy@ == self@,
    {
        proof {
            use_type_invariant(self);
        }
        RelativePath { text: self.text.clone() }
    }
}

impl RelativePath {
    /// Holds of every path value: its text is confined.
    #[verifier::type_invariant]
    pub open spec fn valid(self) -> bool {
        is_confined(path_bytes(self@))
    }

    /// Accepts `text` as a path exactly if it is confined.
    pub fn new(text: String) -> (path: Option<RelativePath>)
        ensures
            path is Some <==> is_confined(path_bytes(text@)),
            path matches Some(p) ==> p@ == text@ && p.valid(),
    {
        if check_confined(text.as_str().as_bytes()) {
            Some(RelativePath { text })
        } else {
            None
        }
    }

    /// The text of the path, to be joined onto the target directory.
    pub fn as_str(&self) -> (text: &str)
        ensures
            text@ == self@,
            is_confined(path_bytes(text@)),
    {
        proof {
            use_type_invariant(self);
        }
        self.text.as_str()
    }
}

} // verus!
