//! Node paths and chunk coordinates: the two halves of an address inside the
//! dataset.

use vstd::prelude::*;
use vstd::string::*;
use vstd::utf8::*;

use crate::text::str_from_utf8;

verus! {

/// The ASCII code of `/`, which separates the segments of a path and of a key.
pub const SLASH: u8 = 0x2f;

/// Whether the bytes `p` spell an absolute path: they begin with `/`.
pub open spec fn is_absolute(p: Seq<u8>) -> bool {
    p.len() >= 1 && p[0] == SLASH
}

/// The path of the root node: a single `/`.
pub open spec fn root_path() -> Seq<u8> {
    seq![SLASH]
}

/// Whether the absolute path `p` is the root or has a first segment that is
/// not empty, so that `/a` qualifies and `//a` does not.
pub open spec fn is_rooted(p: Seq<u8>) -> bool {
    is_absolute(p) && (p.len() >= 2 ==> p[1] != SLASH)
}

/// An absolute, slash-separated path of a node. Its bytes always begin with
/// `/`; they need not be UTF-8.
#[derive(Debug, PartialEq, Eq)]
pub struct Path {
    bytes: Vec<u8>,
}

impl View for Path {
    type V = Seq<u8>;

    closed spec fn view(&self) -> Seq<u8> {
        self.bytes@
    }
}

impl Clone for Path {
    fn clone(&self) -> (r: Path)
        ensures
            r@ == self@,
    {
        proof {
            use_type_invariant(self);
        }
        let bytes = self.bytes.clone();
        Path { bytes }
    }
}

impl Path {
    #[verifier::type_invariant]
    spec fn absolute(&self) -> bool {
        is_absolute(self.bytes@)
    }

    /// The root path `/`.
    pub fn root() -> (r: Path)
        ensures
            r@ == root_path(),
    {
        let mut bytes: Vec<u8> = Vec::new();
        bytes.push(SLASH);
        Path { bytes }
    }

    /// The path spelled by `bytes`, if they begin with `/`.
    pub fn from_bytes(bytes: Vec<u8>) -> (r: Option<Path>)
        ensures
            match r {
                Some(p) => is_absolute(bytes@) && p@ == bytes@,
                None => !is_absolute(bytes@),
            },
    {
        if bytes.len() >= 1 && bytes[0] == SLASH {
            Some(Path { bytes })
        } else {
            None
        }
    }

    /// The absolute path made of `/` and the bytes `text[start..end]`.
    pub fn below_root(text: &[u8], start: usize, end: usize) -> (r: Path)
        requires
            start <= end <= text@.len(),
        ensures
            r@ == seq![SLASH] + text@.subrange(start as int, end as int),
    {
        let mut bytes: Vec<u8> = Vec::new();
        bytes.push(SLASH);
        let mut i: usize = start;
        while i < end
            invariant
                start <= i <= end <= text@.len(),
                bytes@ == seq![SLASH] + text@.subrange(start as int, i as int),
            decreases end - i,
        {
            bytes.push(text[i]);
            i = i + 1;
        }
        Path { bytes }
    }

    /// The path spelled by `text`, if it begins with `/`.
    pub fn new(text: &str) -> (r: Option<Path>)
        ensures
            match r {
                Some(p) => is_absolute(text.spec_bytes()) && p@ == text.spec_bytes(),
                None => !is_absolute(text.spec_bytes()),
            },
    {
        Path::from_bytes(text.as_bytes_vec())
    }

    /// The bytes of the path.
    pub fn as_bytes(&self) -> (r: &[u8])
        ensures
            r@ == self@,
            is_absolute(self@),
    {
        proof {
            use_type_invariant(self);
        }
        self.bytes.as_slice()
    }

    /// Whether this is the root path.
    pub fn is_root(&self) -> (r: bool)
        ensures
            r == (self@ == root_path()),
    {
        proof {
            use_type_invariant(self);
        }
        assert(self.bytes@.len() == 1 ==> self.bytes@ =~= root_path());
        self.bytes.len() == 1
    }

    /// The path as text, if its bytes are UTF-8.
    pub fn to_str(&self) -> (r: Option<&str>)
        ensures
            r is Some <==> valid_utf8(self@),
            r matches Some(s) ==> s.spec_bytes() == self@,
    {
        str_from_utf8(self.bytes.as_slice())
    }
}

/// The coordinates of one chunk of an array, one index per dimension.
#[derive(Debug, Clone, PartialEq, Eq)]
pub struct ChunkIndices(pub Vec<u64>);

impl View for ChunkIndices {
    type V = Seq<u64>;

    open spec fn view(&self) -> Seq<u64> {
        self.0@
    }
}

} // verus!
