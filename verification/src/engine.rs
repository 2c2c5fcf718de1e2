//! The dataset engine as the store sees it: the calls that the store asks
//! for, and what the engine answers.

use vstd::prelude::*;

use crate::error::DatasetError;
use crate::json::JsonView;
use crate::metadata::{UserAttributes, ZarrArrayMetadata, ZarrArrayMetadataView};
use crate::path::{ChunkIndices, Path};

verus! {

/// Where the attributes of a node are kept.
#[derive(Debug, Clone, PartialEq, Eq)]
pub enum UserAttributesStructure {
    /// In the node's own record.
    Inline(UserAttributes),
    /// In an object of their own. The store cannot read these.
    Ref,
}

/// The attributes of a node as a mathematical value.
pub enum AttributesView {
    Inline(JsonView),
    Ref,
}

impl View for UserAttributesStructure {
    type V = AttributesView;

    open spec fn view(&self) -> AttributesView {
        match self {
            UserAttributesStructure::Inline(a) => AttributesView::Inline(a@),
            UserAttributesStructure::Ref => AttributesView::Ref,
        }
    }
}

/// What kind of node it is, and the metadata of an array.
#[derive(Debug, Clone, PartialEq, Eq)]
pub enum NodeData {
    Group,
    Array(ZarrArrayMetadata),
}

/// The kind of a node as a mathematical value.
pub enum NodeDataView {
    Group,
    Array(ZarrArrayMetadataView),
}

impl View for NodeData {
    type V = NodeDataView;

    open spec fn view(&self) -> NodeDataView {
        match self {
            NodeData::Group => NodeDataView::Group,
            NodeData::Array(m) => NodeDataView::Array(m@),
        }
    }
}

/// A node of the dataset: what the engine answers to a look-up.
#[derive(Debug, Clone, PartialEq, Eq)]
pub struct Node {
    pub path: Path,
    pub user_attributes: Option<UserAttributesStructure>,
    pub node_data: NodeData,
}

/// A node as a mathematical value.
pub struct NodeView {
    pub path: Seq<u8>,
    pub user_attributes: Option<AttributesView>,
    pub node_data: NodeDataView,
}

impl View for Node {
    type V = NodeView;

    open spec fn view(&self) -> NodeView {
        NodeView {
            path: self.path@,
            user_attributes: match self.user_attributes {
                Some(a) => Some(a@),
                None => None,
            },
            node_data: self.node_data@,
        }
    }
}

/// The views of nodes.
pub open spec fn node_views(nodes: Seq<Node>) -> Seq<NodeView> {
    nodes.map_values(|n: Node| n@)
}

/// The address of a chunk that an array holds.
#[derive(Debug, Clone, PartialEq, Eq)]
pub struct ChunkAddress {
    pub path: Path,
    pub coords: ChunkIndices,
}

/// The address of a chunk as a mathematical value.
pub struct ChunkAddressView {
    pub path: Seq<u8>,
    pub coords: Seq<u64>,
}

impl View for ChunkAddress {
    type V = ChunkAddressView;

    open spec fn view(&self) -> ChunkAddressView {
        ChunkAddressView { path: self.path@, coords: self.coords@ }
    }
}

/// The views of chunk addresses.
pub open spec fn chunk_views(chunks: Seq<ChunkAddress>) -> Seq<ChunkAddressView> {
    chunks.map_values(|c: ChunkAddress| c@)
}

/// A call of the dataset engine that the store asks for.
#[derive(Debug, Clone, PartialEq, Eq)]
pub enum Request {
    /// Look up the node at `path`, whatever its kind.
    GetNode { path: Path },
    /// Look up the array at `path`; a group there is a failure.
    GetArray { path: Path },
    /// Look up the group at `path`; an array there is a failure.
    GetGroup { path: Path },
    /// Read the chunk at `coords` of the array at `path`.
    GetChunk { path: Path, coords: ChunkIndices },
    AddGroup { path: Path },
    AddArray { path: Path, metadata: ZarrArrayMetadata },
    UpdateArray { path: Path, metadata: ZarrArrayMetadata },
    SetUserAttributes { path: Path, attributes: Option<UserAttributes> },
    DeleteGroup { path: Path },
    DeleteArray { path: Path },
    /// Write `data` as the chunk at `coords` of the array at `path`.
    SetChunk { path: Path, coords: ChunkIndices, data: Vec<u8> },
    /// Leave the array at `path` without a chunk at `coords`.
    ClearChunk { path: Path, coords: ChunkIndices },
    /// List every node.
    ListNodes,
    /// List the address of every chunk of every array.
    AllChunks,
}

/// A call of the engine as a mathematical value.
pub enum RequestView {
    GetNode { path: Seq<u8> },
    GetArray { path: Seq<u8> },
    GetGroup { path: Seq<u8> },
    GetChunk { path: Seq<u8>, coords: Seq<u64> },
    AddGroup { path: Seq<u8> },
    AddArray { path: Seq<u8>, metadata: ZarrArrayMetadataView },
    UpdateArray { path: Seq<u8>, metadata: ZarrArrayMetadataView },
    SetUserAttributes { path: Seq<u8>, attributes: Option<JsonView> },
    DeleteGroup { path: Seq<u8> },
    DeleteArray { path: Seq<u8> },
    SetChunk { path: Seq<u8>, coords: Seq<u64>, data: Seq<u8> },
    ClearChunk { path: Seq<u8>, coords: Seq<u64> },
    ListNodes,
    AllChunks,
}

impl View for Request {
    type V = RequestView;

    open spec fn view(&self) -> RequestView {
        match self {
            Request::GetNode { path } => RequestView::GetNode { path: path@ },
            Request::GetArray { path } => RequestView::GetArray { path: path@ },
            Request::GetGroup { path } => RequestView::GetGroup { path: path@ },
            Request::GetChunk { path, coords } => RequestView::GetChunk {
                path: path@,
                coords: coords@,
            },
            Request::AddGroup { path } => RequestView::AddGroup { path: path@ },
            Request::AddArray { path, metadata } => RequestView::AddArray {
                path: path@,
                metadata: metadata@,
            },
            Request::UpdateArray { path, metadata } => RequestView::UpdateArray {
                path: path@,
                metadata: metadata@,
            },
            Request::SetUserAttributes { path, attributes } => RequestView::SetUserAttributes {
                path: path@,
                attributes: crate::metadata::attributes_view(*attributes),
            },
            Request::DeleteGroup { path } => RequestView::DeleteGroup { path: path@ },
            Request::DeleteArray { path } => RequestView::DeleteArray { path: path@ },
            Request::SetChunk { path, coords, data } => RequestView::SetChunk {
                path: path@,
                coords: coords@,
                data: data@,
            },
            Request::ClearChunk { path, coords } => RequestView::ClearChunk {
                path: path@,
                coords: coords@,
            },
            Request::ListNodes => RequestView::ListNodes,
            Request::AllChunks => RequestView::AllChunks,
        }
    }
}

/// The views of requests.
pub open spec fn request_views(requests: Seq<Request>) -> Seq<RequestView> {
    requests.map_values(|r: Request| r@)
}

/// What the engine answers to a call.
#[derive(Debug, Clone, PartialEq, Eq)]
pub enum Reply {
    /// The node that a look-up found.
    Node(Node),
    /// The chunk that was read, or that there is none.
    Chunk(Option<Vec<u8>>),
    /// The nodes of the dataset, in the engine's order.
    Nodes(Vec<Node>),
    /// The addresses of the dataset's chunks, in the engine's order.
    Chunks(Vec<ChunkAddress>),
    /// The change was made.
    Done,
    /// The call failed.
    Failed(DatasetError),
}

} // verus!
