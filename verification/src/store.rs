//! The store: the operations of a Zarr store, each as the decisions that the
//! adapter takes between two calls of the dataset engine.
//!
//! An operation begins with a [`Step`]. A step either returns the result, or
//! names a call of the engine and keeps what is [`Pending`]; the caller makes
//! the call and resumes with the engine's [`Reply`], which gives the next
//! step.

use vstd::prelude::*;
use vstd::string::*;
use vstd::utf8::*;

use crate::config::{parse_store_config, StoreConfig};
use crate::data_type::fits;
use crate::engine::{
    chunk_views, node_views, request_views, AttributesView, ChunkAddressView, Node, NodeData,
    NodeDataView, NodeView, Reply, Request, RequestView, UserAttributesStructure,
};
use crate::error::{
    DatasetError, KeyNotFoundError, KeyNotFoundView, DocumentFault, StoreError, StoreErrorView,
    StoreResult,
};
use crate::json::{json_document, json_text};
use crate::key::{parse_key, Key, KeyView};
use crate::listing::{
    chunk_keys, chunks_belong, dir_entries, dir_offset, has_trailing_slash, lemma_empty_listing,
    list_chunks_prefix, list_dir, list_metadata_prefix, listing, metadata_keys,
    some_node_has_a_key, stem,
};
use crate::metadata::{
    array_metadata_json, array_metadata_of, attributes_view, group_metadata_json,
    group_metadata_of, parse_array_metadata, serializer_of, text_field, ArrayMetadata,
    ArrayMetadataView, GroupMetadata, GroupMetadataView,
};
use crate::path::{ChunkIndices, Path, SLASH};
use crate::text::string_bytes;

verus! {

/// An offset into a chunk.
pub type ChunkOffset = u64;

/// The part of a value that a read asks for: from where, and up to where.
/// Reads take it and return the whole value.
pub type ByteRange = (Option<ChunkOffset>, Option<ChunkOffset>);

/// What an operation returns when it succeeds.
#[derive(Debug, Clone, PartialEq, Eq)]
pub enum Outcome {
    /// A change that was made.
    Done,
    /// The value under a key.
    Bytes(Vec<u8>),
    /// The answer to a question.
    Flag(bool),
    /// Keys, or the entries of a directory.
    Keys(Vec<String>),
}

/// An outcome as a mathematical value. Keys are held as their UTF-8 bytes.
pub enum OutcomeView {
    Done,
    Bytes(Seq<u8>),
    Flag(bool),
    Keys(Seq<Seq<u8>>),
}

impl View for Outcome {
    type V = OutcomeView;

    open spec fn view(&self) -> OutcomeView {
        match self {
            Outcome::Done => OutcomeView::Done,
            Outcome::Bytes(bytes) => OutcomeView::Bytes(bytes@),
            Outcome::Flag(flag) => OutcomeView::Flag(*flag),
            Outcome::Keys(keys) => OutcomeView::Keys(string_bytes(keys@)),
        }
    }
}

/// What an operation waits for while the engine works.
#[derive(Debug)]
pub enum Pending {
    /// A read of metadata waits for the node at `path`. With `probe`, the
    /// question is only whether the key exists.
    Metadata { path: Path, probe: bool },
    /// A read of a chunk waits for the chunk.
    Chunk { key: String, path: Path, coords: ChunkIndices, probe: bool },
    /// A write of array metadata waits to learn whether the array exists.
    ArrayLookup { path: Path, metadata: ArrayMetadata },
    /// A write of group metadata waits to learn whether the group exists.
    GroupLookup { path: Path, metadata: GroupMetadata },
    /// A change waits to hear that it was made; `rest` are the changes that
    /// follow it, in their order.
    Mutations { rest: Vec<Request> },
    /// A deletion waits for the node at `path`, to learn its kind.
    NodeLookup { path: Path },
    /// The question whether the store is empty waits for the nodes.
    Empty,
    /// A listing waits for the nodes. With `dir`, the entries of the
    /// directory are asked for.
    Nodes { prefix: String, dir: bool },
    /// A listing has the metadata keys and waits for the chunks.
    Chunks { prefix: String, dir: bool, keys: Vec<String> },
}

/// What is pending as a mathematical value.
pub enum PendingView {
    Metadata { path: Seq<u8>, probe: bool },
    Chunk { key: Seq<char>, path: Seq<u8>, coords: Seq<u64>, probe: bool },
    ArrayLookup { path: Seq<u8>, metadata: ArrayMetadataView },
    GroupLookup { path: Seq<u8>, metadata: GroupMetadataView },
    Mutations { rest: Seq<RequestView> },
    NodeLookup { path: Seq<u8> },
    Empty,
    Nodes { prefix: Seq<char>, dir: bool },
    Chunks { prefix: Seq<char>, dir: bool, keys: Seq<Seq<u8>> },
}

impl View for Pending {
    type V = PendingView;

    open spec fn view(&self) -> PendingView {
        match self {
            Pending::Metadata { path, probe } => PendingView::Metadata {
                path: path@,
                probe: *probe,
            },
            Pending::Chunk { key, path, coords, probe } => PendingView::Chunk {
                key: key@,
                path: path@,
                coords: coords@,
                probe: *probe,
            },
            Pending::ArrayLookup { path, metadata } => PendingView::ArrayLookup {
                path: path@,
                metadata: metadata@,
            },
            Pending::GroupLookup { path, metadata } => PendingView::GroupLookup {
                path: path@,
                metadata: metadata@,
            },
            Pending::Mutations { rest } => PendingView::Mutations {
                rest: request_views(rest@),
            },
            Pending::NodeLookup { path } => PendingView::NodeLookup { path: path@ },
            Pending::Empty => PendingView::Empty,
            Pending::Nodes { prefix, dir } => PendingView::Nodes { prefix: prefix@, dir: *dir },
            Pending::Chunks { prefix, dir, keys } => PendingView::Chunks {
                prefix: prefix@,
                dir: *dir,
                keys: string_bytes(keys@),
            },
        }
    }
}

/// One step of an operation.
#[derive(Debug)]
pub enum Step {
    /// Make the call `request` of the engine, and resume `then` with its
    /// answer.
    Call { request: Request, then: Pending },
    /// The operation is over, with this result.
    Return(StoreResult<Outcome>),
}

/// A step as a mathematical value.
pub enum StepView {
    Call { request: RequestView, then: PendingView },
    Return(Result<OutcomeView, StoreErrorView>),
}

/// The view of a result.
pub open spec fn result_view(r: StoreResult<Outcome>) -> Result<OutcomeView, StoreErrorView> {
    match r {
        Ok(outcome) => Ok(outcome@),
        Err(e) => Err(e@),
    }
}

impl View for Step {
    type V = StepView;

    open spec fn view(&self) -> StepView {
        match self {
            Step::Call { request, then } => StepView::Call { request: request@, then: then@ },
            Step::Return(r) => StepView::Return(result_view(*r)),
        }
    }
}

/// An answer of the engine as a mathematical value. A failure is held as its
/// message.
pub enum ReplyView {
    Node(NodeView),
    Chunk(Option<Seq<u8>>),
    Nodes(Seq<NodeView>),
    Chunks(Seq<ChunkAddressView>),
    Done,
    Failed(Seq<char>),
}

impl View for Reply {
    type V = ReplyView;

    open spec fn view(&self) -> ReplyView {
        match self {
            Reply::Node(node) => ReplyView::Node(node@),
            Reply::Chunk(chunk) => ReplyView::Chunk(
                match chunk {
                    Some(bytes) => Some(bytes@),
                    None => None,
                },
            ),
            Reply::Nodes(nodes) => ReplyView::Nodes(node_views(nodes@)),
            Reply::Chunks(chunks) => ReplyView::Chunks(chunk_views(chunks@)),
            Reply::Done => ReplyView::Done,
            Reply::Failed(e) => ReplyView::Failed(e.message@),
        }
    }
}

/// The metadata document that a read of a node returns: format 3, the node's
/// kind, its inline attributes, and for an array its metadata.
pub open spec fn node_text(node: NodeView) -> Seq<u8> {
    let attributes = match node.user_attributes {
        Some(AttributesView::Inline(a)) => Some(a),
        _ => None,
    };
    match node.node_data {
        NodeDataView::Group => json_text(
            group_metadata_json(
                GroupMetadataView { zarr_format: 3, node_type: "group"@, attributes },
            ),
        ),
        NodeDataView::Array(zarr_metadata) => json_text(
            array_metadata_json(
                ArrayMetadataView { zarr_format: 3, node_type: "array"@, attributes, zarr_metadata },
            ),
        ),
    }
}

/// The result of a read, or of the question whether a key exists, from what
/// the read gave: the key exists if the read succeeds, does not exist if the
/// read finds nothing, and any other error of the read is the error of the
/// question.
pub open spec fn read_result(probe: bool, read: Result<OutcomeView, StoreErrorView>) -> Result<
    OutcomeView,
    StoreErrorView,
> {
    if !probe {
        read
    } else {
        match read {
            Ok(_) => Ok(OutcomeView::Flag(true)),
            Err(StoreErrorView::NotFound(_)) => Ok(OutcomeView::Flag(false)),
            Err(e) => Err(e),
        }
    }
}

/// The first step of a read of `key`: a key that does not parse is refused;
/// a metadata key asks for its node, a chunk key for its chunk.
pub open spec fn read_start(key: Seq<char>, probe: bool) -> StepView {
    match parse_key(encode_utf8(key)) {
        None => StepView::Return(
            read_result(probe, Err(StoreErrorView::InvalidKey { key })),
        ),
        Some(KeyView::Metadata { node_path }) => StepView::Call {
            request: RequestView::GetNode { path: node_path },
            then: PendingView::Metadata { path: node_path, probe },
        },
        Some(KeyView::Chunk { node_path, coords }) => StepView::Call {
            request: RequestView::GetChunk { path: node_path, coords },
            then: PendingView::Chunk { key, path: node_path, coords, probe },
        },
    }
}

/// A single change: the call, and nothing after it.
pub open spec fn single(request: RequestView) -> StepView {
    StepView::Call { request, then: PendingView::Mutations { rest: Seq::empty() } }
}

/// The first step of a write of `value` under `key`. Under a metadata key
/// the value is read as array metadata; if it is none, as group metadata,
/// which nothing is that calls itself an array; if it is neither, the write
/// fails with the error of the second reading. The store then asks whether a
/// node of that kind exists. Under a chunk key the value is handed to the
/// engine.
pub open spec fn write_start(key: Seq<char>, value: Seq<u8>) -> StepView {
    match parse_key(encode_utf8(key)) {
        None => StepView::Return(Err(StoreErrorView::InvalidKey { key })),
        Some(KeyView::Metadata { node_path }) => match json_document(value) {
            None => StepView::Return(Err(StoreErrorView::BadMetadata(DocumentFault::Syntax))),
            Some(doc) => match array_metadata_of(doc) {
                Some(metadata) => StepView::Call {
                    request: RequestView::GetArray { path: node_path },
                    then: PendingView::ArrayLookup { path: node_path, metadata },
                },
                None => match group_metadata_of(doc) {
                    Some(metadata) => StepView::Call {
                        request: RequestView::GetGroup { path: node_path },
                        then: PendingView::GroupLookup { path: node_path, metadata },
                    },
                    None => StepView::Return(
                        Err(StoreErrorView::BadMetadata(DocumentFault::Format)),
                    ),
                },
            },
        },
        Some(KeyView::Chunk { node_path, coords }) => single(
            RequestView::SetChunk { path: node_path, coords, data: value },
        ),
    }
}

/// The first step of a deletion of `key`: a metadata key asks for its node,
/// to learn its kind; a chunk key asks the engine to leave the array without
/// that chunk.
pub open spec fn delete_start(key: Seq<char>) -> StepView {
    match parse_key(encode_utf8(key)) {
        None => StepView::Return(Err(StoreErrorView::InvalidKey { key })),
        Some(KeyView::Metadata { node_path }) => StepView::Call {
            request: RequestView::GetNode { path: node_path },
            then: PendingView::NodeLookup { path: node_path },
        },
        Some(KeyView::Chunk { node_path, coords }) => single(
            RequestView::ClearChunk { path: node_path, coords },
        ),
    }
}

/// The first step of a listing under `prefix`: a prefix without a trailing
/// slash is refused; else the nodes are asked for.
pub open spec fn list_start(prefix: Seq<char>, dir: bool) -> StepView {
    if has_trailing_slash(encode_utf8(prefix)) {
        StepView::Call {
            request: RequestView::ListNodes,
            then: PendingView::Nodes { prefix, dir },
        }
    } else {
        StepView::Return(Err(StoreErrorView::BadKeyPrefix(prefix)))
    }
}

/// Whether `reply` answers what `pending` waits for. A failure answers
/// everything. A read of metadata cannot take a node whose attributes are
/// kept by reference.
pub open spec fn expects(pending: PendingView, reply: ReplyView) -> bool {
    reply is Failed || match pending {
        PendingView::Metadata { .. } => reply matches ReplyView::Node(node)
            && node.user_attributes != Some(AttributesView::Ref),
        PendingView::Chunk { .. } => reply is Chunk,
        PendingView::ArrayLookup { .. } => reply is Node,
        PendingView::GroupLookup { .. } => reply is Node,
        PendingView::Mutations { .. } => reply is Done,
        PendingView::NodeLookup { .. } => reply is Node,
        PendingView::Empty => reply is Nodes,
        PendingView::Nodes { .. } => reply is Nodes,
        PendingView::Chunks { .. } => reply is Chunks,
    }
}

/// The step after a change: the failure of the change ends the operation
/// with `CannotUpdate`; else the next change is called for, and after the
/// last one the operation is done.
pub open spec fn after_change(rest: Seq<RequestView>, reply: ReplyView) -> StepView {
    match reply {
        ReplyView::Failed(message) => StepView::Return(Err(StoreErrorView::CannotUpdate(message))),
        _ => if rest.len() == 0 {
            StepView::Return(Ok(OutcomeView::Done))
        } else {
            StepView::Call {
                request: rest[0],
                then: PendingView::Mutations { rest: rest.drop_first() },
            }
        },
    }
}

/// The changes that write array metadata at `path`, in their order. Where
/// the array was found it is updated in place: its attributes, then its
/// metadata. Else it is added, and then given its attributes.
pub open spec fn array_changes(path: Seq<u8>, metadata: ArrayMetadataView, found: bool) -> StepView {
    if found {
        StepView::Call {
            request: RequestView::SetUserAttributes { path, attributes: metadata.attributes },
            then: PendingView::Mutations {
                rest: seq![RequestView::UpdateArray { path, metadata: metadata.zarr_metadata }],
            },
        }
    } else {
        StepView::Call {
            request: RequestView::AddArray { path, metadata: metadata.zarr_metadata },
            then: PendingView::Mutations {
                rest: seq![
                    RequestView::SetUserAttributes { path, attributes: metadata.attributes },
                ],
            },
        }
    }
}

/// The changes that write group metadata at `path`, in their order. Where
/// the group was found it is given its attributes. Else it is added, and
/// then given its attributes.
pub open spec fn group_changes(path: Seq<u8>, metadata: GroupMetadataView, found: bool) -> StepView {
    if found {
        single(RequestView::SetUserAttributes { path, attributes: metadata.attributes })
    } else {
        StepView::Call {
            request: RequestView::AddGroup { path },
            then: PendingView::Mutations {
                rest: seq![
                    RequestView::SetUserAttributes { path, attributes: metadata.attributes },
                ],
            },
        }
    }
}

/// The step that follows when the engine answers `reply` to what `pending`
/// waits for.
pub open spec fn next_step(pending: PendingView, reply: ReplyView) -> StepView {
    match pending {
        PendingView::Metadata { path, probe } => StepView::Return(
            read_result(
                probe,
                match reply {
                    ReplyView::Node(node) => Ok(OutcomeView::Bytes(node_text(node))),
                    _ => Err(StoreErrorView::NotFound(KeyNotFoundView::NodeNotFound { path })),
                },
            ),
        ),
        PendingView::Chunk { key, path, coords, probe } => StepView::Return(
            read_result(
                probe,
                match reply {
                    ReplyView::Chunk(Some(bytes)) => Ok(OutcomeView::Bytes(bytes)),
                    ReplyView::Failed(message) => Err(StoreErrorView::CannotUpdate(message)),
                    _ => Err(
                        StoreErrorView::NotFound(
                            KeyNotFoundView::ChunkNotFound { key, path, coords },
                        ),
                    ),
                },
            ),
        ),
        PendingView::ArrayLookup { path, metadata } => array_changes(
            path,
            metadata,
            !(reply is Failed),
        ),
        PendingView::GroupLookup { path, metadata } => group_changes(
            path,
            metadata,
            !(reply is Failed),
        ),
        PendingView::Mutations { rest } => after_change(rest, reply),
        PendingView::NodeLookup { path } => match reply {
            ReplyView::Node(node) => match node.node_data {
                NodeDataView::Array(_) => single(RequestView::DeleteArray { path }),
                NodeDataView::Group => single(RequestView::DeleteGroup { path }),
            },
            _ => StepView::Return(
                Err(StoreErrorView::NotFound(KeyNotFoundView::NodeNotFound { path })),
            ),
        },
        PendingView::Empty => match reply {
            ReplyView::Failed(message) => StepView::Return(
                Err(StoreErrorView::CannotUpdate(message)),
            ),
            _ => StepView::Return(Ok(OutcomeView::Flag(reply->Nodes_0.len() == 0))),
        },
        PendingView::Nodes { prefix, dir } => match reply {
            ReplyView::Failed(message) => StepView::Return(
                Err(StoreErrorView::CannotUpdate(message)),
            ),
            _ => if has_trailing_slash(encode_utf8(prefix)) {
                StepView::Call {
                    request: RequestView::AllChunks,
                    then: PendingView::Chunks {
                        prefix,
                        dir,
                        keys: metadata_keys(stem(encode_utf8(prefix)), reply->Nodes_0),
                    },
                }
            } else {
                StepView::Return(Err(StoreErrorView::BadKeyPrefix(prefix)))
            },
        },
        PendingView::Chunks { prefix, dir, keys } => match reply {
            ReplyView::Failed(message) => StepView::Return(
                Err(StoreErrorView::CannotUpdate(message)),
            ),
            _ => if has_trailing_slash(encode_utf8(prefix)) {
                let all = keys + chunk_keys(stem(encode_utf8(prefix)), reply->Chunks_0);
                StepView::Return(
                    Ok(
                        OutcomeView::Keys(
                            if dir {
                                dir_entries(dir_offset(encode_utf8(prefix)), all)
                            } else {
                                all
                            },
                        ),
                    ),
                )
            } else {
                StepView::Return(Err(StoreErrorView::BadKeyPrefix(prefix)))
            },
        },
    }
}

/// The metadata document that a read of `node` returns.
pub fn get_metadata(node: Node) -> (r: Vec<u8>)
    requires
        node@.user_attributes != Some(AttributesView::Ref),
    ensures
        r@ == node_text(node@),
{
    let Node { path, user_attributes, node_data } = node;
    let attributes = match user_attributes {
        Some(UserAttributesStructure::Inline(attributes)) => Some(attributes),
        _ => None,
    };
    match node_data {
        NodeData::Group => GroupMetadata::new(attributes).to_bytes(),
        NodeData::Array(zarr_metadata) => ArrayMetadata::new(attributes, zarr_metadata).to_bytes(),
    }
}

/// The result of a read of the chunk under `key` from what the engine found.
pub fn get_chunk(key: String, path: Path, coords: ChunkIndices, found: Option<Vec<u8>>) -> (r:
    StoreResult<Outcome>)
    ensures
        result_view(r) == match found {
            Some(bytes) => Ok::<OutcomeView, StoreErrorView>(OutcomeView::Bytes(bytes@)),
            None => Err(
                StoreErrorView::NotFound(
                    KeyNotFoundView::ChunkNotFound { key: key@, path: path@, coords: coords@ },
                ),
            ),
        },
{
    match found {
        Some(bytes) => Ok(Outcome::Bytes(bytes)),
        None => Err(StoreError::NotFound(KeyNotFoundError::ChunkNotFound { key, path, coords })),
    }
}

/// The result of a read, or of the question whether the key exists, from
/// what the read gave.
pub fn finish_read(probe: bool, read: StoreResult<Outcome>) -> (r: StoreResult<Outcome>)
    ensures
        result_view(r) == read_result(probe, result_view(read)),
{
    if !probe {
        read
    } else {
        match read {
            Ok(_) => Ok(Outcome::Flag(true)),
            Err(StoreError::NotFound(_)) => Ok(Outcome::Flag(false)),
            Err(e) => Err(e),
        }
    }
}

/// The changes that write array metadata, in their order: for an array that
/// was found, its attributes, then its metadata; else the new array, then
/// its attributes.
pub fn set_array_meta(path: Path, array_meta: ArrayMetadata, found: bool) -> (step: Step)
    ensures
        step@ == array_changes(path@, array_meta@, found),
{
    let ArrayMetadata { zarr_format, node_type, attributes, zarr_metadata } = array_meta;
    let mut rest: Vec<Request> = Vec::new();
    if found {
        rest.push(Request::UpdateArray { path: path.clone(), metadata: zarr_metadata });
        let step = Step::Call {
            request: Request::SetUserAttributes { path, attributes },
            then: Pending::Mutations { rest },
        };
        assert(step@->then->Mutations_rest =~= seq![
            RequestView::UpdateArray { path: path@, metadata: zarr_metadata@ },
        ]);
        step
    } else {
        rest.push(Request::SetUserAttributes { path: path.clone(), attributes });
        let step = Step::Call {
            request: Request::AddArray { path, metadata: zarr_metadata },
            then: Pending::Mutations { rest },
        };
        assert(step@->then->Mutations_rest =~= seq![
            RequestView::SetUserAttributes {
                path: path@,
                attributes: attributes_view(attributes),
            },
        ]);
        step
    }
}

/// The changes that write group metadata, in their order: for a group that
/// was found, its attributes; else the new group, then its attributes.
pub fn set_group_meta(path: Path, group_meta: GroupMetadata, found: bool) -> (step: Step)
    ensures
        step@ == group_changes(path@, group_meta@, found),
{
    let GroupMetadata { zarr_format, node_type, attributes } = group_meta;
    let mut rest: Vec<Request> = Vec::new();
    if found {
        let step = Step::Call {
            request: Request::SetUserAttributes { path, attributes },
            then: Pending::Mutations { rest },
        };
        assert(step@->then->Mutations_rest =~= Seq::<RequestView>::empty());
        step
    } else {
        rest.push(Request::SetUserAttributes { path: path.clone(), attributes });
        let step = Step::Call {
            request: Request::AddGroup { path },
            then: Pending::Mutations { rest },
        };
        assert(step@->then->Mutations_rest =~= seq![
            RequestView::SetUserAttributes {
                path: path@,
                attributes: attributes_view(attributes),
            },
        ]);
        step
    }
}

/// A single change.
fn change(request: Request) -> (step: Step)
    ensures
        step@ == single(request@),
{
    let step = Step::Call { request, then: Pending::Mutations { rest: Vec::new() } };
    assert(step@->then->Mutations_rest =~= Seq::<RequestView>::empty());
    step
}

/// The error for an engine failure.
fn cannot_update(e: DatasetError) -> (step: Step)
    ensures
        step@ == StepView::Return(Err(StoreErrorView::CannotUpdate(e.message@))),
{
    Step::Return(Err(StoreError::CannotUpdate(e)))
}

impl Pending {
    /// Whether `reply` answers what is pending.
    pub fn accepts(&self, reply: &Reply) -> (r: bool)
        ensures
            r == expects(self@, reply@),
    {
        match reply {
            Reply::Failed(_) => true,
            Reply::Node(node) => match self {
                Pending::Metadata { .. } => match &node.user_attributes {
                    Some(UserAttributesStructure::Ref) => false,
                    _ => true,
                },
                Pending::ArrayLookup { .. } => true,
                Pending::GroupLookup { .. } => true,
                Pending::NodeLookup { .. } => true,
                _ => false,
            },
            Reply::Chunk(_) => match self {
                Pending::Chunk { .. } => true,
                _ => false,
            },
            Reply::Nodes(_) => match self {
                Pending::Empty => true,
                Pending::Nodes { .. } => true,
                _ => false,
            },
            Reply::Chunks(_) => match self {
                Pending::Chunks { .. } => true,
                _ => false,
            },
            Reply::Done => match self {
                Pending::Mutations { .. } => true,
                _ => false,
            },
        }
    }

    /// The step that follows when the engine answers `reply`.
    pub fn resume(self, reply: Reply) -> (step: Step)
        requires
            expects(self@, reply@),
        ensures
            step@ == next_step(self@, reply@),
    {
        match self {
            Pending::Metadata { path, probe } => {
                let read = match reply {
                    Reply::Node(node) => Ok(Outcome::Bytes(get_metadata(node))),
                    _ => Err(StoreError::NotFound(KeyNotFoundError::NodeNotFound { path })),
                };
                Step::Return(finish_read(probe, read))
            },
            Pending::Chunk { key, path, coords, probe } => {
                let read = match reply {
                    Reply::Chunk(found) => get_chunk(key, path, coords, found),
                    Reply::Failed(e) => Err(StoreError::CannotUpdate(e)),
                    _ => Err(
                        StoreError::NotFound(KeyNotFoundError::ChunkNotFound { key, path, coords }),
                    ),
                };
                Step::Return(finish_read(probe, read))
            },
            Pending::ArrayLookup { path, metadata } => match reply {
                Reply::Failed(_) => set_array_meta(path, metadata, false),
                _ => set_array_meta(path, metadata, true),
            },
            Pending::GroupLookup { path, metadata } => match reply {
                Reply::Failed(_) => set_group_meta(path, metadata, false),
                _ => set_group_meta(path, metadata, true),
            },
            Pending::Mutations { rest } => match reply {
                Reply::Failed(e) => cannot_update(e),
                _ => {
                    let mut rest = rest;
                    if rest.len() == 0 {
                        Step::Return(Ok(Outcome::Done))
                    } else {
                        let ghost before = rest@;
                        let request = rest.remove(0);
                        let step = Step::Call { request, then: Pending::Mutations { rest } };
                        assert(step@->then->Mutations_rest =~= request_views(
                            before,
                        ).drop_first());
                        step
                    }
                },
            },
            Pending::NodeLookup { path } => match reply {
                Reply::Node(node) => match node.node_data {
                    NodeData::Array(_) => change(Request::DeleteArray { path }),
                    NodeData::Group => change(Request::DeleteGroup { path }),
                },
                _ => Step::Return(
                    Err(StoreError::NotFound(KeyNotFoundError::NodeNotFound { path })),
                ),
            },
            Pending::Empty => match reply {
                Reply::Failed(e) => cannot_update(e),
                Reply::Nodes(nodes) => Step::Return(Ok(Outcome::Flag(nodes.len() == 0))),
                _ => Step::Return(Ok(Outcome::Flag(true))),
            },
            Pending::Nodes { prefix, dir } => match reply {
                Reply::Failed(e) => cannot_update(e),
                Reply::Nodes(nodes) => match list_metadata_prefix(prefix.as_str(), &nodes) {
                    Ok(keys) => Step::Call {
                        request: Request::AllChunks,
                        then: Pending::Chunks { prefix, dir, keys },
                    },
                    Err(e) => Step::Return(Err(e)),
                },
                _ => Step::Return(Err(StoreError::BadKeyPrefix(prefix))),
            },
            Pending::Chunks { prefix, dir, keys } => match reply {
                Reply::Failed(e) => cannot_update(e),
                Reply::Chunks(chunks) => match list_chunks_prefix(prefix.as_str(), &chunks) {
                    Ok(more) => {
                        let mut all = keys;
                        let mut more = more;
                        let ghost first = all@;
                        let ghost second = more@;
                        all.append(&mut more);
                        assert(string_bytes(all@) =~= string_bytes(first) + string_bytes(second));
                        if dir {
                            Step::Return(Ok(Outcome::Keys(list_dir(prefix.as_str(), &all))))
                        } else {
                            Step::Return(Ok(Outcome::Keys(all)))
                        }
                    },
                    Err(e) => Step::Return(Err(e)),
                },
                _ => Step::Return(Err(StoreError::BadKeyPrefix(prefix))),
            },
        }
    }
}

/// A Zarr store over a dataset. `D` is the handle of the dataset engine; the
/// store keeps it and hands it back, and never calls it.
#[derive(Debug, Clone)]
pub struct Store<D> {
    dataset: D,
}

impl<D> Store<D> {
    /// The dataset handle that the store holds.
    pub closed spec fn handle(self) -> D {
        self.dataset
    }

    /// Opens the dataset that `config` describes with `open`, and makes a
    /// store over it. What `open` refuses, this refuses with the same
    /// message.
    pub fn from_config<F: FnOnce(&StoreConfig) -> Result<D, String>>(
        config: &StoreConfig,
        open: F,
    ) -> (r: Result<Self, String>)
        requires
            call_requires(open, (config,)),
        ensures
            match r {
                Ok(store) => call_ensures(open, (config,), Ok::<D, String>(store.handle())),
                Err(message) => call_ensures(open, (config,), Err::<D, String>(message)),
            },
    {
        match open(config) {
            Ok(dataset) => Ok(Self::new(dataset)),
            Err(message) => Err(message),
        }
    }

    /// Reads a configuration from JSON text, opens the dataset that it
    /// describes with `open`, and makes a store over it. A text that is no
    /// configuration is refused before anything is opened; what `open`
    /// refuses, this refuses with the same message.
    pub fn from_json_config<F: FnOnce(&StoreConfig) -> Result<D, String>>(
        json: &[u8],
        open: F,
    ) -> (r: Result<Self, String>)
        requires
            forall|config: StoreConfig|
                parse_store_config(json@) == Some(config@) ==> call_requires(open, (&config,)),
        ensures
            match r {
                Ok(store) => exists|config: StoreConfig|
                    parse_store_config(json@) == Some(config@) && call_ensures(
                        open,
                        (&config,),
                        Ok::<D, String>(store.handle()),
                    ),
                Err(message) => parse_store_config(json@) is None || exists|config: StoreConfig|
                    parse_store_config(json@) == Some(config@) && call_ensures(
                        open,
                        (&config,),
                        Err::<D, String>(message),
                    ),
            },
            parse_store_config(json@) is None ==> r is Err,
            json_document(json@) is Some && parse_store_config(json@) is None ==> (r matches Err(
                message,
            ) && message@ == "not a document of the kind asked for"@),
    {
        match StoreConfig::from_bytes(json) {
            Ok(config) => Self::from_config(&config, open),
            Err(e) => Err(e.message()),
        }
    }

    /// A store over `dataset`.
    pub fn new(dataset: D) -> (r: Self)
        ensures
            r.handle() == dataset,
    {
        Store { dataset }
    }

    /// Gives up the store for the dataset handle that it holds.
    pub fn dataset(self) -> (r: D)
        ensures
            r == self.handle(),
    {
        self.dataset
    }

    /// The dataset handle, to make the engine's reads with.
    pub fn engine(&self) -> (r: &D)
        ensures
            *r == self.handle(),
    {
        &self.dataset
    }

    /// The dataset handle, to make the engine's changes with.
    pub fn engine_mut(&mut self) -> (r: &mut D)
        ensures
            *r == old(self).handle(),
            final(self).handle() == *final(r),
    {
        &mut self.dataset
    }

    /// Begins a read of the value under `key`. The byte range is taken and
    /// not looked at: the whole value is returned.
    pub fn get(&self, key: &str, _byte_range: &ByteRange) -> (step: Step)
        ensures
            step@ == read_start(key@, false),
    {
        start_read(key, false)
    }

    /// Begins the question whether anything is stored under `key`. It is
    /// answered by a read.
    pub fn key_exists(&self, key: &str) -> (step: Step)
        ensures
            step@ == read_start(key@, true),
    {
        start_read(key, true)
    }

    /// Begins a read for each of the keys, in their order. The reads do not
    /// depend on each other: they can be carried on side by side.
    pub fn get_partial_values(&self, key_ranges: &Vec<(String, ByteRange)>) -> (steps: Vec<Step>)
        ensures
            steps@.len() == key_ranges@.len(),
            forall|i: int|
                0 <= i < steps@.len() ==> (#[trigger] steps@[i])@ == read_start(
                    key_ranges@[i].0@,
                    false,
                ),
    {
        let mut steps: Vec<Step> = Vec::new();
        let mut i: usize = 0;
        while i < key_ranges.len()
            invariant
                i <= key_ranges.len(),
                steps@.len() == i,
                forall|j: int|
                    0 <= j < i ==> (#[trigger] steps@[j])@ == read_start(key_ranges@[j].0@, false),
            decreases key_ranges.len() - i,
        {
            steps.push(self.get(key_ranges[i].0.as_str(), &key_ranges[i].1));
            i = i + 1;
        }
        steps
    }

    /// Whether the store can be written to.
    pub fn supports_writes(&self) -> (r: StoreResult<bool>)
        ensures
            r matches Ok(true),
    {
        Ok(true)
    }

    /// Whether a part of a value can be written.
    pub fn supports_partial_writes(&self) -> (r: StoreResult<bool>)
        ensures
            r matches Ok(false),
    {
        Ok(false)
    }

    /// Whether the store can list its keys.
    pub fn supports_listing(&self) -> (r: StoreResult<bool>)
        ensures
            r matches Ok(true),
    {
        Ok(true)
    }

    /// Begins a write of `value` under `key`.
    pub fn set(&mut self, key: &str, value: Vec<u8>) -> (step: Step)
        ensures
            step@ == write_start(key@, value@),
            *final(self) == *old(self),
    {
        match Key::parse(key) {
            Err(e) => Step::Return(Err(e)),
            Ok(Key::Metadata { node_path }) => {
                match ArrayMetadata::from_bytes(value.as_slice()) {
                    Ok(metadata) => Step::Call {
                        request: Request::GetArray { path: node_path.clone() },
                        then: Pending::ArrayLookup { path: node_path, metadata },
                    },
                    Err(_) => match GroupMetadata::from_bytes(value.as_slice()) {
                        Ok(metadata) => Step::Call {
                            request: Request::GetGroup { path: node_path.clone() },
                            then: Pending::GroupLookup { path: node_path, metadata },
                        },
                        Err(e) => Step::Return(Err(StoreError::BadMetadata(e))),
                    },
                }
            },
            Ok(Key::Chunk { node_path, coords }) => change(
                Request::SetChunk { path: node_path, coords, data: value },
            ),
        }
    }

    /// Begins the deletion of what is stored under `key`.
    pub fn delete(&mut self, key: &str) -> (step: Step)
        ensures
            step@ == delete_start(key@),
            *final(self) == *old(self),
    {
        match Key::parse(key) {
            Err(e) => Step::Return(Err(e)),
            Ok(Key::Metadata { node_path }) => Step::Call {
                request: Request::GetNode { path: node_path.clone() },
                then: Pending::NodeLookup { path: node_path },
            },
            Ok(Key::Chunk { node_path, coords }) => change(
                Request::ClearChunk { path: node_path, coords },
            ),
        }
    }

    /// Writing parts of values is not offered.
    pub fn set_partial_values(&mut self, _key_start_values: &Vec<(String, ChunkOffset, Vec<u8>)>)
        -> (r: StoreResult<()>)
        ensures
            r matches Err(e) && e@ == StoreErrorView::Unimplemented("set_partial_values"@),
            *final(self) == *old(self),
    {
        Err(StoreError::Unimplemented("set_partial_values"))
    }

    /// Emptying the store is not offered.
    pub fn clear(&mut self) -> (r: StoreResult<()>)
        ensures
            r matches Err(e) && e@ == StoreErrorView::Unimplemented("clear"@),
            *final(self) == *old(self),
    {
        Err(StoreError::Unimplemented("clear"))
    }

    /// Begins the question whether the store holds no node.
    pub fn empty(&self) -> (step: Step)
        ensures
            step@ == (StepView::Call { request: RequestView::ListNodes, then: PendingView::Empty }),
    {
        Step::Call { request: Request::ListNodes, then: Pending::Empty }
    }

    /// Begins the listing of every key: the listing under the prefix `/`.
    pub fn list(&self) -> (step: Step)
        ensures
            step@ == list_start("/"@, false),
    {
        self.list_prefix("/")
    }

    /// Begins the listing of the keys under `prefix`: the metadata keys,
    /// then the chunk keys.
    pub fn list_prefix(&self, prefix: &str) -> (step: Step)
        ensures
            step@ == list_start(prefix@, false),
    {
        start_list(prefix, false)
    }

    /// Begins the listing of the entries of the directory `prefix`.
    pub fn list_dir(&self, prefix: &str) -> (step: Step)
        ensures
            step@ == list_start(prefix@, true),
    {
        start_list(prefix, true)
    }
}

/// The answer to reads that were carried on side by side, from the output
/// of each: the result of the read, or the message of the failure that kept
/// the read from running to its end. The first such failure is the error of
/// the whole; without one, the results stand in the order of the reads, each
/// read's own error in its place.
pub fn collect_partial_values(outputs: Vec<Result<StoreResult<Vec<u8>>, String>>) -> (r: StoreResult<
    Vec<StoreResult<Vec<u8>>>,
>)
    ensures
        match r {
            Ok(results) => results@.len() == outputs@.len() && forall|i: int|
                0 <= i < outputs@.len() ==> outputs@[i] == Ok::<StoreResult<Vec<u8>>, String>(
                    #[trigger] results@[i],
                ),
            Err(e) => exists|k: int|
                0 <= k < outputs@.len() && (#[trigger] outputs@[k] matches Err(message) && e@
                    == StoreErrorView::Unknown(message@)) && forall|j: int|
                    0 <= j < k ==> (#[trigger] outputs@[j]) is Ok,
        },
{
    let mut results: Vec<StoreResult<Vec<u8>>> = Vec::new();
    let mut failure: Option<String> = None;
    let ghost all = outputs@;
    let ghost mut at: int = 0;
    for output in it: outputs
        invariant
            it.seq() == all,
            failure is None ==> results@.len() == it.index() && forall|j: int|
                0 <= j < it.index() ==> all[j] == Ok::<StoreResult<Vec<u8>>, String>(
                    #[trigger] results@[j],
                ),
            failure matches Some(message) ==> 0 <= at < it.index() && all[at] == Err::<
                StoreResult<Vec<u8>>,
                String,
            >(message) && forall|j: int| 0 <= j < at ==> (#[trigger] all[j]) is Ok,
    {
        if failure.is_none() {
            match output {
                Ok(result) => {
                    results.push(result);
                },
                Err(message) => {
                    proof {
                        at = it.index() as int;
                        assert forall|j: int| 0 <= j < at implies (#[trigger] all[j]) is Ok by {
                            assert(all[j] == Ok::<StoreResult<Vec<u8>>, String>(results@[j]));
                        }
                    }
                    failure = Some(message);
                },
            }
        }
    }
    match failure {
        Some(message) => {
            Err(StoreError::Unknown(message))
        },
        None => Ok(results),
    }
}

/// The result of a read of `key`, or with `probe` of the question whether
/// `key` exists, when the engine answers `reply` to the call that the read
/// makes.
pub open spec fn read_outcome(key: Seq<char>, probe: bool, reply: ReplyView) -> Result<
    OutcomeView,
    StoreErrorView,
> {
    match read_start(key, probe) {
        StepView::Return(r) => r,
        StepView::Call { request, then } => next_step(then, reply)->Return_0,
    }
}

/// A key exists exactly if a read of it succeeds: the question and the read
/// make the same call of the engine, and whatever the engine answers, the
/// question is answered with yes exactly if the read returns a value, with
/// no exactly if the read finds nothing, and fails as the read fails else.
pub proof fn lemma_exists_iff_get(key: Seq<char>, reply: ReplyView)
    ensures
        read_start(key, true) is Call <==> read_start(key, false) is Call,
        read_start(key, true) is Call ==> read_start(key, true)->request == read_start(
            key,
            false,
        )->request && next_step(read_start(key, true)->then, reply) is Return && next_step(
            read_start(key, false)->then,
            reply,
        ) is Return,
        read_outcome(key, true, reply) == read_result(true, read_outcome(key, false, reply)),
        read_outcome(key, true, reply) == Ok::<OutcomeView, StoreErrorView>(OutcomeView::Flag(true))
            <==> read_outcome(key, false, reply) is Ok,
        read_outcome(key, true, reply) == Ok::<OutcomeView, StoreErrorView>(
            OutcomeView::Flag(false),
        ) <==> read_outcome(key, false, reply) matches Err(StoreErrorView::NotFound(_)),
{
}

/// Deleting a chunk asks one thing of the engine, to leave the array
/// without that chunk, and succeeds whenever the engine does, whether or not
/// there was a chunk. A read to which the engine answers that there is no
/// chunk fails with `ChunkNotFound`, which names the key, the path and the
/// coordinates.
pub proof fn lemma_chunk_delete(key: Seq<char>)
    requires
        parse_key(encode_utf8(key)) matches Some(KeyView::Chunk { .. }),
    ensures
        ({
            let path = parse_key(encode_utf8(key))->0->Chunk_node_path;
            let coords = parse_key(encode_utf8(key))->0->Chunk_coords;
            &&& delete_start(key) == single(RequestView::ClearChunk { path, coords })
            &&& next_step(delete_start(key)->then, ReplyView::Done) == StepView::Return(
                Ok(OutcomeView::Done),
            )
            &&& read_outcome(key, false, ReplyView::Chunk(None)) == Err::<
                OutcomeView,
                StoreErrorView,
            >(StoreErrorView::NotFound(KeyNotFoundView::ChunkNotFound { key, path, coords }))
        }),
{
}

/// A document that calls itself an array and is no array metadata is never
/// written: the write fails with `BadMetadata`, and nothing is asked of the
/// engine. A fill value that does not suit the data type makes a document
/// such a one.
pub proof fn lemma_bad_array_is_refused(key: Seq<char>, value: Seq<u8>)
    requires
        parse_key(encode_utf8(key)) matches Some(KeyView::Metadata { .. }),
        json_document(value) matches Some(doc) && text_field(doc, "node_type"@) == Some("array"@)
            && (array_metadata_of(doc) is None || (serializer_of(doc) matches Some(fields)
            && !fits(fields.data_type, fields.fill_value))),
    ensures
        write_start(key, value) == StepView::Return(
            Err(StoreErrorView::BadMetadata(DocumentFault::Format)),
        ),
{
}

/// Writing array metadata where the engine has no array: the store asks the
/// engine to add the array, and a refusal of the engine, as for a path at
/// which a group stands, is the error `CannotUpdate` of the write.
pub proof fn lemma_array_over_group(key: Seq<char>, value: Seq<u8>, refusal: Seq<char>)
    requires
        parse_key(encode_utf8(key)) matches Some(KeyView::Metadata { .. }),
        parse_array_metadata(value) is Some,
    ensures
        ({
            let path = parse_key(encode_utf8(key))->0->Metadata_node_path;
            let metadata = parse_array_metadata(value)->0;
            let first = write_start(key, value);
            let second = next_step(first->then, ReplyView::Failed(refusal));
            &&& first is Call
            &&& first->request == RequestView::GetArray { path }
            &&& second is Call
            &&& second->request == RequestView::AddArray {
                path,
                metadata: metadata.zarr_metadata,
            }
            &&& next_step(second->then, ReplyView::Failed(refusal)) == StepView::Return(
                Err(StoreErrorView::CannotUpdate(refusal)),
            )
        }),
{
}

/// The result of a listing under `prefix` is the listing of the nodes and
/// chunks that the engine answers with.
pub proof fn lemma_list_prefix(
    prefix: Seq<char>,
    nodes: Seq<NodeView>,
    chunks: Seq<ChunkAddressView>,
)
    requires
        has_trailing_slash(encode_utf8(prefix)),
    ensures
        ({
            let first = list_start(prefix, false);
            let second = next_step(first->then, ReplyView::Nodes(nodes));
            &&& first is Call && first->request == RequestView::ListNodes
            &&& second is Call && second->request == RequestView::AllChunks
            &&& next_step(second->then, ReplyView::Chunks(chunks)) == StepView::Return(
                Ok(OutcomeView::Keys(listing(encode_utf8(prefix), nodes, chunks))),
            )
        }),
{
}

/// The store is empty exactly if it lists no key. Over a dataset whose
/// chunks stand at nodes and in which some node has a key, the question
/// whether the store is empty is answered with yes exactly if the listing of
/// every key returns none.
pub proof fn lemma_empty_iff_nothing_listed(nodes: Seq<NodeView>, chunks: Seq<ChunkAddressView>)
    requires
        chunks_belong(nodes, chunks),
        some_node_has_a_key(nodes),
    ensures
        ({
            let first = list_start("/"@, false);
            let second = next_step(first->then, ReplyView::Nodes(nodes));
            let last = next_step(second->then, ReplyView::Chunks(chunks));
            &&& first is Call && second is Call
            &&& last matches StepView::Return(Ok(OutcomeView::Keys(keys)))
            &&& next_step(PendingView::Empty, ReplyView::Nodes(nodes)) == StepView::Return(
                Ok(OutcomeView::Flag(last->Return_0->Ok_0->Keys_0.len() == 0)),
            )
        }),
{
    reveal_strlit("/");
    is_ascii_chars_encode_utf8("/"@);
    lemma_empty_listing(nodes, chunks);
}

/// The entries of a directory are the directory entries of the listing under
/// the same prefix.
pub proof fn lemma_list_dir(
    prefix: Seq<char>,
    nodes: Seq<NodeView>,
    chunks: Seq<ChunkAddressView>,
)
    requires
        has_trailing_slash(encode_utf8(prefix)),
    ensures
        ({
            let first = list_start(prefix, true);
            let second = next_step(first->then, ReplyView::Nodes(nodes));
            &&& first is Call && first->request == RequestView::ListNodes
            &&& second is Call && second->request == RequestView::AllChunks
            &&& next_step(second->then, ReplyView::Chunks(chunks)) == StepView::Return(
                Ok(
                    OutcomeView::Keys(
                        dir_entries(
                            dir_offset(encode_utf8(prefix)),
                            listing(encode_utf8(prefix), nodes, chunks),
                        ),
                    ),
                ),
            )
        }),
{
}

/// The first step of a read.
fn start_read(key: &str, probe: bool) -> (step: Step)
    ensures
        step@ == read_start(key@, probe),
{
    match Key::parse(key) {
        Err(e) => Step::Return(finish_read(probe, Err(e))),
        Ok(Key::Metadata { node_path }) => Step::Call {
            request: Request::GetNode { path: node_path.clone() },
            then: Pending::Metadata { path: node_path, probe },
        },
        Ok(Key::Chunk { node_path, coords }) => {
            let wanted = ChunkIndices(coords.0.clone());
            Step::Call {
                request: Request::GetChunk { path: node_path.clone(), coords: wanted },
                then: Pending::Chunk { key: key.to_owned(), path: node_path, coords, probe },
            }
        },
    }
}

/// The first step of a listing.
fn start_list(prefix: &str, dir: bool) -> (step: Step)
    ensures
        step@ == list_start(prefix@, dir),
{
    let bytes = prefix.as_bytes();
    if bytes.len() > 0 && bytes[bytes.len() - 1] == SLASH {
        Step::Call { request: Request::ListNodes, then: Pending::Nodes { prefix: prefix.to_owned(), dir } }
    } else {
        Step::Return(Err(StoreError::BadKeyPrefix(prefix.to_owned())))
    }
}


} // verus!
