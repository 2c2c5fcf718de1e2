//! Listings: the keys of a dataset's nodes and chunks under a prefix, and the
//! entries of a directory.

use vstd::prelude::*;
use vstd::string::*;
use vstd::utf8::*;

use crate::engine::{chunk_views, node_views, ChunkAddress, ChunkAddressView, Node, NodeView};
use crate::error::{StoreError, StoreErrorView};
use crate::key::{format_key, Key, KeyView};
use crate::path::{ChunkIndices, SLASH};
use crate::segments::{free_of, lemma_split_first, split};
use crate::text::{append_bytes, starts_with, string_bytes, string_from_utf8};

verus! {

/// Whether a listing prefix ends with `/`, as every listing prefix must.
pub open spec fn has_trailing_slash(prefix: Seq<u8>) -> bool {
    prefix.len() > 0 && prefix.last() == SLASH
}

/// A listing prefix without its trailing slash: what the listed keys begin
/// with.
pub open spec fn stem(prefix: Seq<u8>) -> Seq<u8> {
    prefix.drop_last()
}

/// The key under which an address is listed: the address has a key, and the
/// key begins with `stem`.
pub open spec fn listed_key(stem: Seq<u8>, k: KeyView) -> Option<Seq<u8>> {
    if valid_utf8(k.path()) && stem.is_prefix_of(format_key(k)) {
        Some(format_key(k))
    } else {
        None
    }
}

/// The items that are there, in their order.
pub open spec fn present(items: Seq<Option<Seq<u8>>>) -> Seq<Seq<u8>>
    decreases items.len(),
{
    if items.len() == 0 {
        Seq::empty()
    } else {
        match items.last() {
            Some(item) => present(items.drop_last()).push(item),
            None => present(items.drop_last()),
        }
    }
}

/// The items that are there, in their order, each at its first occurrence
/// only.
pub open spec fn distinct(items: Seq<Option<Seq<u8>>>) -> Seq<Seq<u8>>
    decreases items.len(),
{
    if items.len() == 0 {
        Seq::empty()
    } else {
        let before = distinct(items.drop_last());
        match items.last() {
            Some(item) => if before.contains(item) {
                before
            } else {
                before.push(item)
            },
            None => before,
        }
    }
}

/// The metadata keys of `nodes` that begin with `stem`, in the order of the
/// nodes. A node whose path is not UTF-8 has no key.
pub open spec fn metadata_keys(stem: Seq<u8>, nodes: Seq<NodeView>) -> Seq<Seq<u8>> {
    present(
        nodes.map_values(|n: NodeView| listed_key(stem, KeyView::Metadata { node_path: n.path })),
    )
}

/// The chunk keys of `chunks` that begin with `stem`, in the order of the
/// chunks.
pub open spec fn chunk_keys(stem: Seq<u8>, chunks: Seq<ChunkAddressView>) -> Seq<Seq<u8>> {
    present(
        chunks.map_values(
            |c: ChunkAddressView|
                listed_key(stem, KeyView::Chunk { node_path: c.path, coords: c.coords }),
        ),
    )
}

/// The listing under a prefix: the metadata keys, then the chunk keys.
pub open spec fn listing(prefix: Seq<u8>, nodes: Seq<NodeView>, chunks: Seq<ChunkAddressView>)
    -> Seq<Seq<u8>> {
    metadata_keys(stem(prefix), nodes) + chunk_keys(stem(prefix), chunks)
}

/// How many bytes a directory listing takes off the front of each key: the
/// length of the prefix, and nothing for the root prefix `/`.
pub open spec fn dir_offset(prefix: Seq<u8>) -> int {
    if prefix == seq![SLASH] {
        0
    } else {
        prefix.len() as int
    }
}

/// The directory entry that a key stands under: what follows its first
/// `offset` bytes, up to the next `/`. A key shorter than `offset`, or one of
/// which this cut is not UTF-8, stands under none.
pub open spec fn dir_entry(offset: int, key: Seq<u8>) -> Option<Seq<u8>> {
    if 0 <= offset <= key.len() && valid_utf8(split(key.skip(offset), SLASH)[0]) {
        Some(split(key.skip(offset), SLASH)[0])
    } else {
        None
    }
}

/// The entries of a directory: the entries that the keys stand under, each
/// once.
pub open spec fn dir_entries(offset: int, keys: Seq<Seq<u8>>) -> Seq<Seq<u8>> {
    distinct(keys.map_values(|key: Seq<u8>| dir_entry(offset, key)))
}

/// What is in `present(items)`: the items that are there.
pub proof fn lemma_present(items: Seq<Option<Seq<u8>>>)
    ensures
        present(items).len() <= items.len(),
        forall|e: Seq<u8>| present(items).contains(e) <==> items.contains(Some(e)),
    decreases items.len(),
{
    if items.len() > 0 {
        let init = items.drop_last();
        lemma_present(init);
        assert forall|e: Seq<u8>| present(items).contains(e) <==> items.contains(Some(e)) by {
            if present(items).contains(e) {
                let i = choose|i: int| 0 <= i < present(items).len() && present(items)[i] == e;
                if items.last() == Some(e) {
                    assert(items[items.len() - 1] == Some(e));
                } else {
                    assert(present(init).contains(e));
                    let j = choose|j: int| 0 <= j < init.len() && init[j] == Some(e);
                    assert(items[j] == Some(e));
                }
            }
            if items.contains(Some(e)) {
                let j = choose|j: int| 0 <= j < items.len() && items[j] == Some(e);
                if j == items.len() - 1 {
                    assert(present(items)[present(items).len() - 1] == e);
                } else {
                    assert(init[j] == Some(e));
                    assert(present(init).contains(e));
                    let i = choose|i: int| 0 <= i < present(init).len() && present(init)[i] == e;
                    assert(present(items)[i] == e);
                }
            }
        }
    }
}

/// How often an item is in `present(items)`: as often as it is there among
/// `items`.
pub proof fn lemma_present_count(items: Seq<Option<Seq<u8>>>, e: Seq<u8>)
    ensures
        present(items).to_multiset().count(e) == items.to_multiset().count(Some(e)),
    decreases items.len(),
{
    broadcast use vstd::seq_lib::group_to_multiset_ensures;

    if items.len() > 0 {
        let init = items.drop_last();
        lemma_present_count(init, e);
        assert(items =~= init.push(items.last()));
    }
}

/// How often a key is listed: a key stands in the listing under
/// a prefix as often as there are nodes and chunks of which it is the listed
/// key.
pub proof fn lemma_listing_count(
    prefix: Seq<u8>,
    nodes: Seq<NodeView>,
    chunks: Seq<ChunkAddressView>,
    key: Seq<u8>,
)
    ensures
        listing(prefix, nodes, chunks).to_multiset().count(key) == nodes.map_values(
            |n: NodeView| listed_key(stem(prefix), KeyView::Metadata { node_path: n.path }),
        ).to_multiset().count(Some(key)) + chunks.map_values(
            |c: ChunkAddressView|
                listed_key(stem(prefix), KeyView::Chunk { node_path: c.path, coords: c.coords }),
        ).to_multiset().count(Some(key)),
{
    let of_nodes = nodes.map_values(
        |n: NodeView| listed_key(stem(prefix), KeyView::Metadata { node_path: n.path }),
    );
    let of_chunks = chunks.map_values(
        |c: ChunkAddressView|
            listed_key(stem(prefix), KeyView::Chunk { node_path: c.path, coords: c.coords }),
    );
    lemma_present_count(of_nodes, key);
    lemma_present_count(of_chunks, key);
    vstd::seq_lib::lemma_multiset_commutative(present(of_nodes), present(of_chunks));
}

/// What is in `distinct(items)`: the items that are there, and none of them
/// twice.
pub proof fn lemma_distinct(items: Seq<Option<Seq<u8>>>)
    ensures
        distinct(items).no_duplicates(),
        forall|e: Seq<u8>| distinct(items).contains(e) <==> items.contains(Some(e)),
    decreases items.len(),
{
    if items.len() > 0 {
        let init = items.drop_last();
        let before = distinct(init);
        lemma_distinct(init);
        assert forall|e: Seq<u8>| distinct(items).contains(e) <==> items.contains(Some(e)) by {
            if distinct(items).contains(e) {
                let i = choose|i: int| 0 <= i < distinct(items).len() && distinct(items)[i] == e;
                if items.last() == Some(e) {
                    assert(items[items.len() - 1] == Some(e));
                } else {
                    assert(before.contains(e));
                    let j = choose|j: int| 0 <= j < init.len() && init[j] == Some(e);
                    assert(items[j] == Some(e));
                }
            }
            if items.contains(Some(e)) {
                let j = choose|j: int| 0 <= j < items.len() && items[j] == Some(e);
                if j < items.len() - 1 {
                    assert(init[j] == Some(e));
                }
                if before.contains(e) {
                    let i = choose|i: int| 0 <= i < before.len() && before[i] == e;
                    assert(distinct(items)[i] == e);
                } else {
                    assert(distinct(items)[distinct(items).len() - 1] == e);
                }
            }
        }
    }
}

/// What a directory holds: the entries are the distinct entries that
/// the keys stand under.
pub proof fn lemma_dir_entries(offset: int, keys: Seq<Seq<u8>>)
    ensures
        dir_entries(offset, keys).no_duplicates(),
        forall|e: Seq<u8>|
            dir_entries(offset, keys).contains(e) <==> exists|i: int|
                0 <= i < keys.len() && dir_entry(offset, #[trigger] keys[i]) == Some(e),
{
    let entries = keys.map_values(|key: Seq<u8>| dir_entry(offset, key));
    lemma_distinct(entries);
    assert forall|e: Seq<u8>|
        dir_entries(offset, keys).contains(e) <==> exists|i: int|
            0 <= i < keys.len() && dir_entry(offset, #[trigger] keys[i]) == Some(e) by {
        if entries.contains(Some(e)) {
            let i = choose|i: int| 0 <= i < entries.len() && entries[i] == Some(e);
            assert(dir_entry(offset, keys[i]) == Some(e));
        }
        if exists|i: int| 0 <= i < keys.len() && dir_entry(offset, #[trigger] keys[i]) == Some(e) {
            let i = choose|i: int|
                0 <= i < keys.len() && dir_entry(offset, #[trigger] keys[i]) == Some(e);
            assert(entries[i] == Some(e));
        }
    }
}

/// What a listing holds: a key is listed under a prefix exactly if it is the
/// key of a node or of a chunk and begins with the prefix without its
/// trailing slash.
pub proof fn lemma_listing(prefix: Seq<u8>, nodes: Seq<NodeView>, chunks: Seq<ChunkAddressView>)
    ensures
        forall|key: Seq<u8>|
            listing(prefix, nodes, chunks).contains(key) <==> stem(prefix).is_prefix_of(key) && ((
            exists|i: int|
                0 <= i < nodes.len() && valid_utf8((#[trigger] nodes[i]).path) && format_key(
                    KeyView::Metadata { node_path: nodes[i].path },
                ) == key) || (exists|i: int|
                0 <= i < chunks.len() && valid_utf8((#[trigger] chunks[i]).path) && format_key(
                    KeyView::Chunk { node_path: chunks[i].path, coords: chunks[i].coords },
                ) == key)),
{
    let s = stem(prefix);
    let of_nodes = nodes.map_values(
        |n: NodeView| listed_key(s, KeyView::Metadata { node_path: n.path }),
    );
    let of_chunks = chunks.map_values(
        |c: ChunkAddressView| listed_key(s, KeyView::Chunk { node_path: c.path, coords: c.coords }),
    );
    lemma_present(of_nodes);
    lemma_present(of_chunks);
    let all = listing(prefix, nodes, chunks);
    assert forall|key: Seq<u8>|
        all.contains(key) <==> s.is_prefix_of(key) && ((exists|i: int|
            0 <= i < nodes.len() && valid_utf8((#[trigger] nodes[i]).path) && format_key(
                KeyView::Metadata { node_path: nodes[i].path },
            ) == key) || (exists|i: int|
            0 <= i < chunks.len() && valid_utf8((#[trigger] chunks[i]).path) && format_key(
                KeyView::Chunk { node_path: chunks[i].path, coords: chunks[i].coords },
            ) == key)) by {
        let a = metadata_keys(s, nodes);
        let b = chunk_keys(s, chunks);
        if all.contains(key) {
            let i = choose|i: int| 0 <= i < all.len() && all[i] == key;
            if i < a.len() {
                assert(a[i] == key);
                assert(a.contains(key));
                let j = choose|j: int| 0 <= j < of_nodes.len() && of_nodes[j] == Some(key);
                assert(valid_utf8(nodes[j].path));
            } else {
                assert(b[i - a.len()] == key);
                assert(b.contains(key));
                let j = choose|j: int| 0 <= j < of_chunks.len() && of_chunks[j] == Some(key);
                assert(valid_utf8(chunks[j].path));
            }
        }
        if s.is_prefix_of(key) && exists|i: int|
            0 <= i < nodes.len() && valid_utf8((#[trigger] nodes[i]).path) && format_key(
                KeyView::Metadata { node_path: nodes[i].path },
            ) == key {
            let j = choose|i: int|
                0 <= i < nodes.len() && valid_utf8((#[trigger] nodes[i]).path) && format_key(
                    KeyView::Metadata { node_path: nodes[i].path },
                ) == key;
            assert(of_nodes[j] == Some(key));
            assert(a.contains(key));
            let i = choose|i: int| 0 <= i < a.len() && a[i] == key;
            assert(all[i] == key);
        }
        if s.is_prefix_of(key) && exists|i: int|
            0 <= i < chunks.len() && valid_utf8((#[trigger] chunks[i]).path) && format_key(
                KeyView::Chunk { node_path: chunks[i].path, coords: chunks[i].coords },
            ) == key {
            let j = choose|i: int|
                0 <= i < chunks.len() && valid_utf8((#[trigger] chunks[i]).path) && format_key(
                    KeyView::Chunk { node_path: chunks[i].path, coords: chunks[i].coords },
                ) == key;
            assert(of_chunks[j] == Some(key));
            assert(b.contains(key));
            let i = choose|i: int| 0 <= i < b.len() && b[i] == key;
            assert(all[a.len() + i] == key);
        }
    }
}

/// Whether every chunk stands at the path of a node, as the chunks of a
/// dataset do.
pub open spec fn chunks_belong(nodes: Seq<NodeView>, chunks: Seq<ChunkAddressView>) -> bool {
    forall|i: int|
        0 <= i < chunks.len() ==> exists|j: int|
            0 <= j < nodes.len() && (#[trigger] nodes[j]).path == (#[trigger] chunks[i]).path
}

/// Whether a node has a key, if there is a node at all: the path of one of
/// the nodes is UTF-8.
pub open spec fn some_node_has_a_key(nodes: Seq<NodeView>) -> bool {
    nodes.len() > 0 ==> exists|i: int| 0 <= i < nodes.len() && valid_utf8((#[trigger] nodes[i]).path)
}

/// A dataset is empty exactly if its listing is: there are no nodes exactly
/// if the listing under `/` has no keys.
pub proof fn lemma_empty_listing(nodes: Seq<NodeView>, chunks: Seq<ChunkAddressView>)
    requires
        chunks_belong(nodes, chunks),
        some_node_has_a_key(nodes),
    ensures
        nodes.len() == 0 <==> listing(seq![SLASH], nodes, chunks).len() == 0,
{
    let root = seq![SLASH];
    let of_nodes = nodes.map_values(
        |n: NodeView| listed_key(stem(root), KeyView::Metadata { node_path: n.path }),
    );
    let of_chunks = chunks.map_values(
        |c: ChunkAddressView|
            listed_key(stem(root), KeyView::Chunk { node_path: c.path, coords: c.coords }),
    );
    lemma_present(of_nodes);
    lemma_present(of_chunks);
    if nodes.len() > 0 {
        let i = choose|i: int| 0 <= i < nodes.len() && valid_utf8((#[trigger] nodes[i]).path);
        let key = format_key(KeyView::Metadata { node_path: nodes[i].path });
        assert(of_nodes[i] == Some(key));
        assert(present(of_nodes).contains(key));
    } else {
        // a chunk would stand at the path of a node
        assert(chunks.len() == 0) by {
            if chunks.len() > 0 {
                let j = choose|j: int|
                    0 <= j < nodes.len() && (#[trigger] nodes[j]).path == (
                    #[trigger] chunks[0]).path;
                assert(j < nodes.len());
            }
        }
    }
}

/// The stem of a listing prefix, or the error for a prefix without a
/// trailing slash.
fn prefix_stem(prefix: &str) -> (r: Result<&[u8], StoreError>)
    ensures
        match r {
            Ok(s) => has_trailing_slash(prefix.spec_bytes()) && s@ == stem(prefix.spec_bytes()),
            Err(e) => !has_trailing_slash(prefix.spec_bytes()) && e@
                == StoreErrorView::BadKeyPrefix(prefix@),
        },
{
    let bytes = prefix.as_bytes();
    if bytes.len() > 0 && bytes[bytes.len() - 1] == SLASH {
        Ok(vstd::slice::slice_subrange(bytes, 0, bytes.len() - 1))
    } else {
        Err(StoreError::BadKeyPrefix(prefix.to_owned()))
    }
}

/// The key of `key`, if it has one and the key begins with `stem`.
fn listed(stem: &[u8], key: &Key) -> (r: Option<String>)
    ensures
        match r {
            Some(text) => listed_key(stem@, key@) == Some(encode_utf8(text@)),
            None => listed_key(stem@, key@) is None,
        },
{
    match key.to_string() {
        Some(text) => {
            if starts_with(text.as_str().as_bytes(), stem) {
                Some(text)
            } else {
                None
            }
        },
        None => None,
    }
}

/// The metadata keys of `nodes` under `prefix`, in the order of the nodes.
/// A prefix that does not end with `/` is refused with `BadKeyPrefix`.
pub fn list_metadata_prefix(prefix: &str, nodes: &Vec<Node>) -> (r: Result<Vec<String>, StoreError>)
    ensures
        match r {
            Ok(keys) => has_trailing_slash(prefix.spec_bytes()) && string_bytes(keys@)
                == metadata_keys(stem(prefix.spec_bytes()), node_views(nodes@)),
            Err(e) => !has_trailing_slash(prefix.spec_bytes()) && e@
                == StoreErrorView::BadKeyPrefix(prefix@),
        },
{
    let start = match prefix_stem(prefix) {
        Ok(start) => start,
        Err(e) => {
            return Err(e);
        },
    };
    let ghost items = node_views(nodes@).map_values(
        |n: NodeView| listed_key(start@, KeyView::Metadata { node_path: n.path }),
    );
    let mut keys: Vec<String> = Vec::new();
    let mut i: usize = 0;
    while i < nodes.len()
        invariant
            i <= nodes.len(),
            items == node_views(nodes@).map_values(
                |n: NodeView| listed_key(start@, KeyView::Metadata { node_path: n.path }),
            ),
            string_bytes(keys@) == present(items.take(i as int)),
        decreases nodes.len() - i,
    {
        assert(items.take(i + 1).drop_last() =~= items.take(i as int));
        let key = Key::Metadata { node_path: nodes[i].path.clone() };
        match listed(start, &key) {
            Some(text) => {
                keys.push(text);
            },
            None => {},
        }
        i = i + 1;
    }
    assert(items.take(i as int) =~= items);
    Ok(keys)
}

/// The chunk keys of `chunks` under `prefix`, in the order of the chunks. A
/// prefix that does not end with `/` is refused with `BadKeyPrefix`.
pub fn list_chunks_prefix(prefix: &str, chunks: &Vec<ChunkAddress>) -> (r: Result<
    Vec<String>,
    StoreError,
>)
    ensures
        match r {
            Ok(keys) => has_trailing_slash(prefix.spec_bytes()) && string_bytes(keys@)
                == chunk_keys(stem(prefix.spec_bytes()), chunk_views(chunks@)),
            Err(e) => !has_trailing_slash(prefix.spec_bytes()) && e@
                == StoreErrorView::BadKeyPrefix(prefix@),
        },
{
    let start = match prefix_stem(prefix) {
        Ok(start) => start,
        Err(e) => {
            return Err(e);
        },
    };
    let ghost items = chunk_views(chunks@).map_values(
        |c: ChunkAddressView|
            listed_key(start@, KeyView::Chunk { node_path: c.path, coords: c.coords }),
    );
    let mut keys: Vec<String> = Vec::new();
    let mut i: usize = 0;
    while i < chunks.len()
        invariant
            i <= chunks.len(),
            items == chunk_views(chunks@).map_values(
                |c: ChunkAddressView|
                    listed_key(start@, KeyView::Chunk { node_path: c.path, coords: c.coords }),
            ),
            string_bytes(keys@) == present(items.take(i as int)),
        decreases chunks.len() - i,
    {
        assert(items.take(i + 1).drop_last() =~= items.take(i as int));
        let coords = chunks[i].coords.0.clone();
        let key = Key::Chunk { node_path: chunks[i].path.clone(), coords: ChunkIndices(coords) };
        match listed(start, &key) {
            Some(text) => {
                keys.push(text);
            },
            None => {},
        }
        i = i + 1;
    }
    assert(items.take(i as int) =~= items);
    Ok(keys)
}

/// The directory entry that `key` stands under, `offset` bytes into it.
fn entry_of(offset: usize, key: &str) -> (r: Option<String>)
    ensures
        match r {
            Some(text) => dir_entry(offset as int, key.spec_bytes()) == Some(encode_utf8(text@)),
            None => dir_entry(offset as int, key.spec_bytes()) is None,
        },
{
    let bytes = key.as_bytes();
    if offset > bytes.len() {
        return None;
    }
    let ghost rest = bytes@.skip(offset as int);
    let mut end: usize = offset;
    while end < bytes.len() && bytes[end] != SLASH
        invariant
            offset <= end <= bytes@.len(),
            rest == bytes@.skip(offset as int),
            free_of(rest.take(end - offset), SLASH),
        decreases bytes@.len() - end,
    {
        assert forall|j: int| 0 <= j < end + 1 - offset implies #[trigger] rest.take(
            end + 1 - offset,
        )[j] != SLASH by {
            if j < end - offset {
                assert(rest.take(end - offset)[j] != SLASH);
            }
        }
        end = end + 1;
    }
    proof {
        lemma_split_first(rest, end - offset, SLASH);
        assert(rest.take(end - offset) =~= bytes@.subrange(offset as int, end as int));
    }
    let mut entry: Vec<u8> = Vec::new();
    append_bytes(&mut entry, bytes, offset, end);
    string_from_utf8(entry)
}

/// Whether `texts` holds `text`.
fn holds(texts: &Vec<String>, text: &String) -> (r: bool)
    ensures
        r == string_bytes(texts@).contains(encode_utf8(text@)),
{
    let mut i: usize = 0;
    while i < texts.len()
        invariant
            i <= texts.len(),
            forall|j: int| 0 <= j < i ==> string_bytes(texts@)[j] != encode_utf8(text@),
        decreases texts.len() - i,
    {
        proof {
            encode_utf8_decode_utf8(texts@[i as int]@);
            encode_utf8_decode_utf8(text@);
        }
        if texts[i] == *text {
            assert(string_bytes(texts@)[i as int] == encode_utf8(text@));
            return true;
        }
        i = i + 1;
    }
    false
}

/// The entries of the directory `prefix` among `keys`: for each key what
/// follows the prefix up to the next `/`, each entry once, in the order of
/// their first occurrence.
pub fn list_dir(prefix: &str, keys: &Vec<String>) -> (r: Vec<String>)
    ensures
        string_bytes(r@) == dir_entries(dir_offset(prefix.spec_bytes()), string_bytes(keys@)),
{
    let bytes = prefix.as_bytes();
    let offset: usize = if bytes.len() == 1 && bytes[0] == SLASH {
        0
    } else {
        bytes.len()
    };
    let ghost items = string_bytes(keys@).map_values(
        |key: Seq<u8>| dir_entry(offset as int, key),
    );
    let mut entries: Vec<String> = Vec::new();
    let mut i: usize = 0;
    while i < keys.len()
        invariant
            i <= keys.len(),
            items == string_bytes(keys@).map_values(|key: Seq<u8>| dir_entry(offset as int, key)),
            string_bytes(entries@) == distinct(items.take(i as int)),
        decreases keys.len() - i,
    {
        assert(items.take(i + 1).drop_last() =~= items.take(i as int));
        match entry_of(offset, keys[i].as_str()) {
            Some(text) => {
                if !holds(&entries, &text) {
                    entries.push(text);
                }
            },
            None => {},
        }
        i = i + 1;
    }
    assert(items.take(i as int) =~= items);
    entries
}

} // verus!
