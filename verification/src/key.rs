//! The key codec: Zarr keys such as `a/b/zarr.json` and `a/b/c/0/1` on one
//! side, structured addresses on the other.

use vstd::prelude::*;
use vstd::string::*;
use vstd::utf8::*;

use crate::decimal::{
    decimal, is_canonical_uint, is_digit, lemma_decimal_digits, lemma_parse_decimal, parse_u64,
    parse_uint, push_decimal,
};
use crate::error::{StoreError, StoreErrorView};
use crate::path::{is_absolute, is_rooted, root_path, ChunkIndices, Path, SLASH};
use crate::segments::{
    free_of, join, lemma_join_split, lemma_split_join, lemma_split_pieces, lemma_split_prefix, split,
};
use crate::text::{
    append_bytes, bytes_eq, ends_with, is_ascii, lemma_ascii_first, lemma_ascii_valid,
    string_from_utf8,
};

verus! {

/// The ASCII code of `c`, the name of the subtree that holds an array's
/// chunks.
pub const CHUNK_MARKER: u8 = 0x63;

/// The key of the root node's metadata: `zarr.json`.
pub open spec fn root_key() -> Seq<u8> {
    seq![0x7au8, 0x61u8, 0x72u8, 0x72u8, 0x2eu8, 0x6au8, 0x73u8, 0x6fu8, 0x6eu8]
}

/// What ends the metadata key of every other node: `/zarr.json`.
pub open spec fn metadata_suffix() -> Seq<u8> {
    seq![SLASH] + root_key()
}

/// The address that a key stands for.
#[derive(Debug, Clone, PartialEq, Eq)]
pub enum Key {
    /// The JSON descriptor of the node at `node_path`.
    Metadata { node_path: Path },
    /// The chunk at `coords` of the array at `node_path`.
    Chunk { node_path: Path, coords: ChunkIndices },
}

/// A key as a mathematical value.
pub enum KeyView {
    Metadata { node_path: Seq<u8> },
    Chunk { node_path: Seq<u8>, coords: Seq<u64> },
}

impl View for Key {
    type V = KeyView;

    open spec fn view(&self) -> KeyView {
        match self {
            Key::Metadata { node_path } => KeyView::Metadata { node_path: node_path@ },
            Key::Chunk { node_path, coords } => KeyView::Chunk {
                node_path: node_path@,
                coords: coords@,
            },
        }
    }
}

impl KeyView {
    /// The path of the node that the key addresses.
    pub open spec fn path(self) -> Seq<u8> {
        match self {
            KeyView::Metadata { node_path } => node_path,
            KeyView::Chunk { node_path, .. } => node_path,
        }
    }
}

/// Whether `/c` stands at index `i` of `s`.
pub open spec fn marker_at(s: Seq<u8>, i: int) -> bool {
    0 <= i && i + 2 <= s.len() && s[i] == SLASH && s[i + 1] == CHUNK_MARKER
}

/// The greatest index up to `from` at which `/c` stands in `s`.
pub open spec fn last_marker_from(s: Seq<u8>, from: int) -> Option<int>
    decreases from + 1,
{
    if from < 0 {
        None
    } else if marker_at(s, from) {
        Some(from)
    } else {
        last_marker_from(s, from - 1)
    }
}

/// The index of the rightmost `/c` in `s`.
pub open spec fn last_marker(s: Seq<u8>) -> Option<int> {
    last_marker_from(s, s.len() - 2)
}

/// The coordinates spelled by `t`: unsigned integers separated by `/`.
pub open spec fn parse_coords(t: Seq<u8>) -> Option<Seq<u64>> {
    let parts = split(t, SLASH);
    if forall|i: int| 0 <= i < parts.len() ==> parse_uint(#[trigger] parts[i]) is Some {
        Some(Seq::new(parts.len(), |i: int| parse_uint(parts[i])->0))
    } else {
        None
    }
}

/// The shortest decimal text of each coordinate.
pub open spec fn coord_parts(coords: Seq<u64>) -> Seq<Seq<u8>> {
    Seq::new(coords.len(), |i: int| decimal(coords[i] as nat))
}

/// The text of coordinates: their shortest decimal forms, separated by `/`.
/// No coordinates give the empty text.
pub open spec fn coords_text(coords: Seq<u64>) -> Seq<u8> {
    join(coord_parts(coords), SLASH)
}

/// The absolute path whose text after the leading `/` is `relative`.
pub open spec fn absolute(relative: Seq<u8>) -> Seq<u8> {
    seq![SLASH] + relative
}

/// The address of a chunk key. The key `c` is the root's chunk without
/// coordinates. Any other key is cut at its rightmost `/c`: the node's path
/// stands before it, and after it nothing, or `/` and the coordinates.
pub open spec fn parse_chunk_key(s: Seq<u8>) -> Option<KeyView> {
    if s == seq![CHUNK_MARKER] {
        Some(KeyView::Chunk { node_path: root_path(), coords: Seq::empty() })
    } else {
        match last_marker(s) {
            None => None,
            Some(i) => {
                let path = absolute(s.subrange(0, i));
                let rest = s.subrange(i + 2, s.len() as int);
                if rest.len() == 0 {
                    Some(KeyView::Chunk { node_path: path, coords: Seq::empty() })
                } else if rest[0] != SLASH {
                    None
                } else {
                    match parse_coords(rest.skip(1)) {
                        Some(coords) => Some(KeyView::Chunk { node_path: path, coords }),
                        None => None,
                    }
                }
            },
        }
    }
}

/// The address that the key `s` stands for, if `s` is a key. The clauses are
/// tried in this order: the root's metadata key; no key begins with `/`; a
/// key that ends in `/zarr.json` is a node's metadata key; anything else is
/// read as a chunk key.
pub open spec fn parse_key(s: Seq<u8>) -> Option<KeyView> {
    if s == root_key() {
        Some(KeyView::Metadata { node_path: root_path() })
    } else if s.len() > 0 && s[0] == SLASH {
        None
    } else if metadata_suffix().is_suffix_of(s) {
        Some(
            KeyView::Metadata {
                node_path: absolute(s.subrange(0, s.len() - metadata_suffix().len())),
            },
        )
    } else {
        parse_chunk_key(s)
    }
}

/// `s` without its leading bytes `b`.
pub open spec fn trim_start(s: Seq<u8>, b: u8) -> Seq<u8>
    decreases s.len(),
{
    if s.len() > 0 && s[0] == b {
        trim_start(s.skip(1), b)
    } else {
        s
    }
}

/// The key of an address. A metadata key is the node's path without its
/// leading slashes, then `/zarr.json`; the root's is `zarr.json` alone. A
/// chunk key is the path without its first byte, `c` and the coordinates'
/// text, those of the three that are not empty, with `/` between them.
pub open spec fn format_key(k: KeyView) -> Seq<u8> {
    match k {
        KeyView::Metadata { node_path } => trim_start(node_path.skip(1) + metadata_suffix(), SLASH),
        KeyView::Chunk { node_path, coords } => {
            let path = node_path.skip(1);
            let head = if path.len() == 0 {
                seq![CHUNK_MARKER]
            } else {
                path + seq![SLASH, CHUNK_MARKER]
            };
            if coords.len() == 0 {
                head
            } else {
                head + seq![SLASH] + coords_text(coords)
            }
        },
    }
}

/// The bytes of the two literals that the codec compares keys against.
pub proof fn lemma_key_literals()
    ensures
        "zarr.json".spec_bytes() == root_key(),
        "/zarr.json".spec_bytes() == metadata_suffix(),
{
    reveal_strlit("zarr.json");
    reveal_strlit("/zarr.json");
    is_ascii_chars_encode_utf8("zarr.json"@);
    is_ascii_chars_encode_utf8("/zarr.json"@);
}

/// What the search from `from` downwards finds: a place where `/c` stands,
/// with none between it and `from`; or that none stands at or below `from`.
pub proof fn lemma_last_marker_from(s: Seq<u8>, from: int)
    ensures
        match last_marker_from(s, from) {
            Some(i) => i <= from && marker_at(s, i) && forall|j: int|
                i < j <= from ==> !marker_at(s, j),
            None => forall|j: int| j <= from ==> !marker_at(s, j),
        },
    decreases from + 1,
{
    if from >= 0 && !marker_at(s, from) {
        lemma_last_marker_from(s, from - 1);
    }
}

/// The rightmost `/c` is one, and none stands to its right.
pub proof fn lemma_last_marker(s: Seq<u8>)
    ensures
        match last_marker(s) {
            Some(i) => marker_at(s, i) && forall|j: int| i < j ==> !marker_at(s, j),
            None => forall|j: int| !marker_at(s, j),
        },
{
    lemma_last_marker_from(s, s.len() - 2);
}

/// The text of coordinates, one coordinate at a time.
pub proof fn lemma_coords_text_push(coords: Seq<u64>, c: u64)
    ensures
        coords_text(coords.push(c)) == if coords.len() == 0 {
            decimal(c as nat)
        } else {
            coords_text(coords).push(SLASH) + decimal(c as nat)
        },
{
    let parts = coord_parts(coords.push(c));
    assert(parts.drop_last() =~= coord_parts(coords));
}

/// The text of coordinates is made of digits and slashes, and is empty only
/// for no coordinates.
pub proof fn lemma_coords_text_bytes(coords: Seq<u64>)
    ensures
        forall|i: int|
            0 <= i < coords_text(coords).len() ==> is_digit(#[trigger] coords_text(coords)[i])
                || coords_text(coords)[i] == SLASH,
        is_ascii(coords_text(coords)),
        coords.len() > 0 ==> coords_text(coords).len() > 0,
    decreases coords.len(),
{
    if coords.len() > 0 {
        let init = coords.drop_last();
        lemma_coords_text_bytes(init);
        lemma_coords_text_push(init, coords.last());
        assert(init.push(coords.last()) =~= coords);
        lemma_decimal_digits(coords.last() as nat);
        let d = decimal(coords.last() as nat);
        let text = coords_text(coords);
        assert forall|i: int| 0 <= i < text.len() implies is_digit(#[trigger] text[i]) || text[i]
            == SLASH by {
            if init.len() > 0 && i > coords_text(init).len() {
                assert(is_digit(d[i - coords_text(init).len() - 1]));
            }
        }
    }
}

/// Dropping leading slashes keeps UTF-8 text UTF-8.
pub proof fn lemma_trim_start_valid(s: Seq<u8>)
    requires
        valid_utf8(s),
    ensures
        valid_utf8(trim_start(s, SLASH)),
    decreases s.len(),
{
    if s.len() > 0 && s[0] == SLASH {
        lemma_ascii_first(s);
        lemma_trim_start_valid(s.skip(1));
    }
}

/// The key of an address is UTF-8 where the address's path is.
pub proof fn lemma_format_key_valid(k: KeyView)
    requires
        is_absolute(k.path()),
        valid_utf8(k.path()),
    ensures
        valid_utf8(format_key(k)),
{
    lemma_ascii_first(k.path());
    let path = k.path().skip(1);
    match k {
        KeyView::Metadata { node_path } => {
            lemma_ascii_valid(metadata_suffix());
            valid_utf8_concat(path, metadata_suffix());
            lemma_trim_start_valid(path + metadata_suffix());
        },
        KeyView::Chunk { node_path, coords } => {
            let head = if path.len() == 0 {
                seq![CHUNK_MARKER]
            } else {
                path + seq![SLASH, CHUNK_MARKER]
            };
            lemma_ascii_valid(seq![CHUNK_MARKER]);
            lemma_ascii_valid(seq![SLASH, CHUNK_MARKER]);
            valid_utf8_concat(path, seq![SLASH, CHUNK_MARKER]);
            lemma_coords_text_bytes(coords);
            lemma_ascii_valid(seq![SLASH]);
            lemma_ascii_valid(coords_text(coords));
            valid_utf8_concat(head, seq![SLASH]);
            valid_utf8_concat(head + seq![SLASH], coords_text(coords));
        },
    }
}

/// Whether an address is one that a key can stand for: its path is the root
/// or begins with a segment that is not empty, and a chunk of the root has no
/// coordinates.
pub open spec fn addressable(k: KeyView) -> bool {
    &&& is_rooted(k.path())
    &&& (k matches KeyView::Chunk { node_path, coords } ==> node_path.len() == 1 ==> coords.len()
        == 0)
}

/// Round trip, from the address: the key written for an addressable address
/// reads back as that address.
pub proof fn lemma_parse_format(k: KeyView)
    requires
        addressable(k),
    ensures
        parse_key(format_key(k)) == Some(k),
{
    let s = format_key(k);
    let p = k.path().skip(1);
    assert(k.path() =~= absolute(p));
    match k {
        KeyView::Metadata { node_path } => {
            if p.len() == 0 {
                // the root: the slash that begins the suffix is dropped
                assert(metadata_suffix().skip(1) =~= root_key());
                assert(trim_start(metadata_suffix(), SLASH) == trim_start(root_key(), SLASH));
            } else {
                let whole = p + metadata_suffix();
                assert(whole.subrange(0, whole.len() - metadata_suffix().len()) =~= p);
            }
        },
        KeyView::Chunk { node_path, coords } => {
            if p.len() == 0 {
                assert(coords =~= Seq::<u64>::empty());
            } else {
                let text = coords_text(coords);
                lemma_coords_text_bytes(coords);
                // the key ends in `c` or in a digit, so it is no metadata key
                assert(is_digit(s.last()) || s.last() == CHUNK_MARKER) by {
                    if coords.len() > 0 {
                        lemma_decimal_digits(coords.last() as nat);
                        lemma_coords_text_push(coords.drop_last(), coords.last());
                    }
                }
                assert(!metadata_suffix().is_suffix_of(s)) by {
                    if metadata_suffix().is_suffix_of(s) {
                        let tail = s.subrange(s.len() - metadata_suffix().len(), s.len() as int);
                        assert(tail.last() == s.last());
                    }
                }
                // what follows the path's `/c` holds slashes and digits only
                let at = p.len() as int;
                assert(marker_at(s, at));
                assert forall|j: int| at < j implies !marker_at(s, j) by {}
                lemma_last_marker(s);
                assert(s.subrange(0, at) =~= p);
                let rest = s.subrange(at + 2, s.len() as int);
                if coords.len() == 0 {
                    assert(coords =~= Seq::<u64>::empty());
                } else {
                    assert(rest.skip(1) =~= text);
                    let parts = coord_parts(coords);
                    assert forall|i: int| 0 <= i < parts.len() implies free_of(
                        #[trigger] parts[i],
                        SLASH,
                    ) && parse_uint(parts[i]) == Some(coords[i]) by {
                        lemma_decimal_digits(coords[i] as nat);
                        lemma_parse_decimal(coords[i]);
                        assert forall|j: int| 0 <= j < parts[i].len() implies #[trigger] parts[i][j]
                            != SLASH by {}
                    }
                    lemma_split_join(parts, SLASH);
                    assert(parse_coords(text)->0 =~= coords);
                }
            }
        },
    }
}

/// Whether the coordinates of the key `s` are written in their shortest
/// decimal form, without a sign and without leading zeros. It holds of every
/// text that is no chunk key.
pub open spec fn canonical_coords(s: Seq<u8>) -> bool {
    match last_marker(s) {
        Some(i) => {
            let parts = split(s.subrange(i + 3, s.len() as int), SLASH);
            (parse_key(s) matches Some(KeyView::Chunk { coords, .. }) && coords.len() > 0)
                ==> forall|j: int| 0 <= j < parts.len() ==> is_canonical_uint(#[trigger] parts[j])
        },
        None => true,
    }
}

/// Round trip, from the key: a key whose coordinates are in shortest decimal
/// form is the key written for the address that it reads as.
pub proof fn lemma_format_parse(s: Seq<u8>)
    requires
        parse_key(s) is Some,
        canonical_coords(s),
    ensures
        format_key(parse_key(s)->0) == s,
{
    if s == root_key() {
        assert(metadata_suffix().skip(1) =~= root_key());
        assert(trim_start(metadata_suffix(), SLASH) == trim_start(root_key(), SLASH));
    } else if !metadata_suffix().is_suffix_of(s) && s != seq![CHUNK_MARKER] {
        lemma_last_marker(s);
        let i = last_marker(s)->0;
        if i + 2 < s.len() {
            // the coordinates are their own shortest text, and the pieces join to the whole
            let t = s.subrange(i + 3, s.len() as int);
            assert(s.subrange(i + 2, s.len() as int).skip(1) =~= t);
            lemma_split_pieces(t, SLASH);
            assert(coord_parts(parse_coords(t)->0) =~= split(t, SLASH));
            lemma_join_split(t, SLASH);
        }
    }
}

/// The index of the rightmost `/c` in `s`.
pub fn find_last_marker(s: &[u8]) -> (r: Option<usize>)
    ensures
        match r {
            Some(i) => last_marker(s@) == Some(i as int),
            None => last_marker(s@) is None,
        },
{
    if s.len() < 2 {
        return None;
    }
    let mut i: usize = s.len() - 1;
    while i > 0
        invariant
            i < s@.len(),
            last_marker(s@) == last_marker_from(s@, i - 1),
        decreases i,
    {
        if s[i - 1] == SLASH && s[i] == CHUNK_MARKER {
            return Some(i - 1);
        }
        i = i - 1;
    }
    None
}

/// Reads `s[start..end]` as coordinates: unsigned integers separated by `/`.
pub fn read_coords(s: &[u8], start: usize, end: usize) -> (r: Option<Vec<u64>>)
    requires
        start <= end <= s@.len(),
    ensures
        match r {
            Some(v) => parse_coords(s@.subrange(start as int, end as int)) == Some(v@),
            None => parse_coords(s@.subrange(start as int, end as int)) is None,
        },
{
    let ghost t = s@.subrange(start as int, end as int);
    let mut values: Vec<u64> = Vec::new();
    let mut from: usize = start;
    let mut i: usize = start;
    assert(t.subrange(0, 0) =~= Seq::<u8>::empty());
    while i < end
        invariant
            start <= from <= i <= end <= s@.len(),
            t == s@.subrange(start as int, end as int),
            split(t.take(i - start), SLASH).len() == values@.len() + 1,
            split(t.take(i - start), SLASH).last() == t.subrange(from - start, i - start),
            forall|j: int|
                0 <= j < values@.len() ==> parse_uint(
                    #[trigger] split(t.take(i - start), SLASH)[j],
                ) == Some(values@[j]),
        decreases end - i,
    {
        let ghost before = split(t.take(i - start), SLASH);
        assert(t.take(i - start + 1).drop_last() =~= t.take(i - start));
        if s[i] == SLASH {
            assert(s@.subrange(from as int, i as int) =~= t.subrange(from - start, i - start));
            match parse_u64(s, from, i) {
                Some(v) => {
                    values.push(v);
                },
                None => {
                    proof {
                        lemma_split_prefix(t, i - start + 1, SLASH);
                        assert(split(t, SLASH)[before.len() - 1] == before.last());
                    }
                    return None;
                },
            }
            from = i + 1;
        }
        i = i + 1;
    }
    assert(t.take(i - start) =~= t);
    assert(s@.subrange(from as int, end as int) =~= t.subrange(from - start, end - start));
    match parse_u64(s, from, end) {
        Some(v) => {
            values.push(v);
            Some(values)
        },
        None => None,
    }
}

impl Key {
    /// The error for a key that does not follow the grammar.
    fn invalid(key: &str) -> (e: StoreError)
        ensures
            e@ == (StoreErrorView::InvalidKey { key: key@ }),
    {
        StoreError::InvalidKey { key: key.to_owned() }
    }

    /// Reads a key that is no metadata key as a chunk key.
    fn parse_chunk(key: &str) -> (r: Result<Key, StoreError>)
        ensures
            match r {
                Ok(k) => parse_chunk_key(key.spec_bytes()) == Some(k@),
                Err(e) => parse_chunk_key(key.spec_bytes()) is None && e@
                    == (StoreErrorView::InvalidKey { key: key@ }),
            },
    {
        let s = key.as_bytes();
        if s.len() == 1 && s[0] == CHUNK_MARKER {
            return Ok(Key::Chunk { node_path: Path::root(), coords: ChunkIndices(Vec::new()) });
        }
        proof {
            lemma_last_marker(s@);
        }
        match find_last_marker(s) {
            None => Err(Key::invalid(key)),
            Some(i) => {
                let rest: usize = i + 2;
                if rest == s.len() {
                    Ok(
                        Key::Chunk {
                            node_path: Path::below_root(s, 0, i),
                            coords: ChunkIndices(Vec::new()),
                        },
                    )
                } else if s[rest] != SLASH {
                    Err(Key::invalid(key))
                } else {
                    assert(s@.subrange(rest as int, s@.len() as int).skip(1) =~= s@.subrange(
                        rest + 1,
                        s@.len() as int,
                    ));
                    match read_coords(s, rest + 1, s.len()) {
                        Some(coords) => Ok(
                            Key::Chunk {
                                node_path: Path::below_root(s, 0, i),
                                coords: ChunkIndices(coords),
                            },
                        ),
                        None => Err(Key::invalid(key)),
                    }
                }
            },
        }
    }

    /// The path of the node that the key addresses.
    pub fn node_path(&self) -> (r: &Path)
        ensures
            r@ == self@.path(),
    {
        match self {
            Key::Metadata { node_path } => node_path,
            Key::Chunk { node_path, .. } => node_path,
        }
    }

    /// The bytes of the key.
    fn format(&self) -> (out: Vec<u8>)
        ensures
            out@ == format_key(self@),
            is_absolute(self@.path()),
    {
        let mut out: Vec<u8> = Vec::new();
        match self {
            Key::Metadata { node_path } => {
                let path = node_path.as_bytes();
                let ghost suffix = metadata_suffix();
                let mut i: usize = 1;
                while i < path.len() && path[i] == SLASH
                    invariant
                        1 <= i <= path@.len(),
                        suffix == metadata_suffix(),
                        trim_start(path@.skip(1) + suffix, SLASH) == trim_start(
                            path@.skip(i as int) + suffix,
                            SLASH,
                        ),
                    decreases path@.len() - i,
                {
                    assert((path@.skip(i as int) + suffix).skip(1) =~= path@.skip(i + 1) + suffix);
                    i = i + 1;
                }
                proof {
                    lemma_key_literals();
                }
                if i == path.len() {
                    let leaf = "zarr.json".as_bytes();
                    append_bytes(&mut out, leaf, 0, leaf.len());
                    proof {
                        // nothing is left of the path: the suffix loses its slash
                        assert((path@.skip(i as int) + suffix).skip(1) =~= root_key());
                        assert(trim_start(root_key(), SLASH) == root_key());
                    }
                } else {
                    let tail = "/zarr.json".as_bytes();
                    append_bytes(&mut out, path, i, path.len());
                    append_bytes(&mut out, tail, 0, tail.len());
                }
            },
            Key::Chunk { node_path, coords } => {
                let path = node_path.as_bytes();
                if path.len() > 1 {
                    append_bytes(&mut out, path, 1, path.len());
                    out.push(SLASH);
                }
                out.push(CHUNK_MARKER);
                let ghost head = out@;
                let mut j: usize = 0;
                while j < coords.0.len()
                    invariant
                        j <= coords.0@.len(),
                        out@ == if j == 0 {
                            head
                        } else {
                            head + seq![SLASH] + coords_text(coords.0@.take(j as int))
                        },
                    decreases coords.0@.len() - j,
                {
                    let ghost done = coords.0@.take(j as int);
                    out.push(SLASH);
                    push_decimal(&mut out, coords.0[j]);
                    proof {
                        lemma_coords_text_push(done, coords.0@[j as int]);
                        assert(coords.0@.take(j + 1) =~= done.push(coords.0@[j as int]));
                    }
                    j = j + 1;
                }
                assert(coords.0@.take(j as int) =~= coords.0@);
            },
        }
        out
    }

    /// Writes the key of this address. There is none where the node's path
    /// is not UTF-8.
    pub fn to_string(&self) -> (r: Option<String>)
        ensures
            match r {
                Some(text) => valid_utf8(self@.path()) && encode_utf8(text@) == format_key(self@),
                None => !valid_utf8(self@.path()),
            },
    {
        if self.node_path().to_str().is_none() {
            return None;
        }
        let out = self.format();
        proof {
            lemma_format_key_valid(self@);
        }
        string_from_utf8(out)
    }

    /// Reads a Zarr key. Every text that is no key is refused with
    /// `InvalidKey`, which holds the text.
    pub fn parse(key: &str) -> (r: Result<Key, StoreError>)
        ensures
            match r {
                Ok(k) => parse_key(key.spec_bytes()) == Some(k@),
                Err(e) => parse_key(key.spec_bytes()) is None && e@ == (StoreErrorView::InvalidKey {
                    key: key@,
                }),
            },
    {
        proof {
            lemma_key_literals();
        }
        let s = key.as_bytes();
        if bytes_eq(s, "zarr.json".as_bytes()) {
            Ok(Key::Metadata { node_path: Path::root() })
        } else if s.len() > 0 && s[0] == SLASH {
            Err(Key::invalid(key))
        } else if ends_with(s, "/zarr.json".as_bytes()) {
            Ok(Key::Metadata { node_path: Path::below_root(s, 0, s.len() - 10) })
        } else {
            Key::parse_chunk(key)
        }
    }
}

} // verus!
