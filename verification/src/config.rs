//! The configuration of a store: which storage backs the dataset, and which
//! version of the dataset is opened; and the JSON document of both.

use vstd::prelude::*;
use vstd::string::*;
use vstd::utf8::*;

use crate::error::DocumentError;
use crate::json::{
    hex_digit, json_document, json_text, lemma_lookup_decreases, lemma_lookup_index,
    lemma_lookup_member, lemma_object_view, lemma_same_pair, lemma_same_single, lookup,
    same_value, write_hex, Json, JsonView,
};
use crate::text::{is_ascii, lemma_ascii_valid, str_eq, string_from_utf8};

verus! {

/// The identifier of a stored object: sixteen bytes, written as thirty-two
/// hexadecimal digits.
#[derive(Debug, Clone, PartialEq, Eq)]
pub struct ObjectId(pub [u8; 16]);

impl View for ObjectId {
    type V = Seq<u8>;

    open spec fn view(&self) -> Seq<u8> {
        self.0@
    }
}

/// The identifier of a snapshot. Reserved: no store can be opened from one
/// yet.
#[derive(Debug, Clone, PartialEq, Eq)]
pub struct SnapshotId(pub String);

/// Where the dataset's objects are kept.
#[derive(Debug, PartialEq, Eq)]
pub enum StorageConfig {
    /// In the memory of the process.
    InMemory,
    /// In the directory `root` of the local file system.
    LocalFileSystem { root: String },
    /// In `backend`, behind a cache of about `approx_max_memory_bytes` bytes.
    Cached { approx_max_memory_bytes: u64, backend: Box<StorageConfig> },
}

/// A storage configuration as a mathematical value.
pub enum StorageView {
    InMemory,
    LocalFileSystem { root: Seq<char> },
    Cached { approx_max_memory_bytes: u64, backend: Box<StorageView> },
}

/// What a storage configuration holds, as a mathematical value.
pub open spec fn storage_view(c: StorageConfig) -> StorageView
    decreases c,
{
    match c {
        StorageConfig::InMemory => StorageView::InMemory,
        StorageConfig::LocalFileSystem { root } => StorageView::LocalFileSystem { root: root@ },
        StorageConfig::Cached { approx_max_memory_bytes, backend } => StorageView::Cached {
            approx_max_memory_bytes,
            backend: Box::new(storage_view(*backend)),
        },
    }
}

impl View for StorageConfig {
    type V = StorageView;

    open spec fn view(&self) -> StorageView {
        storage_view(*self)
    }
}

impl Clone for StorageConfig {
    fn clone(&self) -> (r: Self)
        ensures
            r@ == self@,
        decreases self,
    {
        match self {
            StorageConfig::InMemory => StorageConfig::InMemory,
            StorageConfig::LocalFileSystem { root } => StorageConfig::LocalFileSystem {
                root: root.clone(),
            },
            StorageConfig::Cached { approx_max_memory_bytes, backend } => {
                let inner: &StorageConfig = &**backend;
                StorageConfig::Cached {
                    approx_max_memory_bytes: *approx_max_memory_bytes,
                    backend: Box::new(inner.clone()),
                }
            },
        }
    }
}

/// Which version of the dataset a store starts from.
#[derive(Debug, Clone, PartialEq, Eq)]
pub enum VersionInfo {
    /// A new, empty dataset.
    Empty,
    /// The structure file with this identifier.
    StructureId(ObjectId),
    /// The snapshot with this identifier.
    SnapshotId(SnapshotId),
}

/// A version as a mathematical value.
pub enum VersionView {
    Empty,
    StructureId(Seq<u8>),
    SnapshotId(Seq<char>),
}

impl View for VersionInfo {
    type V = VersionView;

    open spec fn view(&self) -> VersionView {
        match self {
            VersionInfo::Empty => VersionView::Empty,
            VersionInfo::StructureId(id) => VersionView::StructureId(id@),
            VersionInfo::SnapshotId(id) => VersionView::SnapshotId(id.0@),
        }
    }
}

/// How the dataset is opened.
#[derive(Debug, Clone, PartialEq, Eq)]
pub struct DatasetConfig {
    pub previous_version: VersionInfo,
    /// Chunks of at most this many bytes are kept inside the dataset's own
    /// records; where it is absent the engine's default applies.
    pub inline_chunk_threshold_bytes: Option<u16>,
}

/// A dataset configuration as a mathematical value.
pub struct DatasetView {
    pub previous_version: VersionView,
    pub inline_chunk_threshold_bytes: Option<u16>,
}

impl View for DatasetConfig {
    type V = DatasetView;

    open spec fn view(&self) -> DatasetView {
        DatasetView {
            previous_version: self.previous_version@,
            inline_chunk_threshold_bytes: self.inline_chunk_threshold_bytes,
        }
    }
}

/// The configuration of a store.
#[derive(Debug, Clone, PartialEq)]
pub struct StoreConfig {
    pub storage: StorageConfig,
    pub dataset: DatasetConfig,
}

/// A store configuration as a mathematical value.
pub struct StoreConfigView {
    pub storage: StorageView,
    pub dataset: DatasetView,
}

impl View for StoreConfig {
    type V = StoreConfigView;

    open spec fn view(&self) -> StoreConfigView {
        StoreConfigView { storage: self.storage@, dataset: self.dataset@ }
    }
}

/// The value of a hexadecimal digit, of either case.
pub open spec fn hex_value(b: u8) -> Option<u8> {
    if 0x30 <= b <= 0x39 {
        Some((b - 0x30) as u8)
    } else if 0x61 <= b <= 0x66 {
        Some((b - 0x61 + 10) as u8)
    } else if 0x41 <= b <= 0x46 {
        Some((b - 0x41 + 10) as u8)
    } else {
        None
    }
}

/// The identifier that thirty-two hexadecimal digits spell, two digits to
/// the byte, the high one first.
pub open spec fn object_id_of(text: Seq<u8>) -> Option<Seq<u8>> {
    if text.len() == 32 && forall|i: int| 0 <= i < 32 ==> hex_value(#[trigger] text[i]) is Some {
        Some(
            Seq::new(
                16,
                |i: int| (hex_value(text[2 * i])->0 * 16 + hex_value(text[2 * i + 1])->0) as u8,
            ),
        )
    } else {
        None
    }
}

/// The thirty-two lower-case hexadecimal digits of an identifier.
pub open spec fn object_id_hex(id: Seq<u8>) -> Seq<u8> {
    Seq::new(
        32,
        |i: int|
            if i % 2 == 0 {
                hex_digit(id[i / 2] as int / 16)
            } else {
                hex_digit(id[i / 2] as int % 16)
            },
    )
}

/// An identifier reads back from its digits.
pub proof fn lemma_object_id_round_trip(id: Seq<u8>)
    requires
        id.len() == 16,
    ensures
        object_id_of(object_id_hex(id)) == Some(id),
        is_ascii(object_id_hex(id)),
{
    let text = object_id_hex(id);
    assert forall|i: int| 0 <= i < 32 implies hex_value(#[trigger] text[i]) is Some by {}
    assert(object_id_of(text)->0 =~= id) by {
        assert forall|i: int| 0 <= i < 16 implies (hex_value(text[2 * i])->0 * 16 + hex_value(
            text[2 * i + 1],
        )->0) as u8 == id[i] by {
            assert((2 * i) % 2 == 0 && (2 * i) / 2 == i);
            assert((2 * i + 1) % 2 == 1 && (2 * i + 1) / 2 == i);
        }
    }
}

/// The value of a hexadecimal digit.
fn read_hex(b: u8) -> (r: Option<u8>)
    ensures
        r == hex_value(b),
{
    if 0x30 <= b && b <= 0x39 {
        Some(b - 0x30)
    } else if 0x61 <= b && b <= 0x66 {
        Some(b - 0x61 + 10)
    } else if 0x41 <= b && b <= 0x46 {
        Some(b - 0x41 + 10)
    } else {
        None
    }
}

impl ObjectId {
    /// The identifier that `text` spells: thirty-two hexadecimal digits.
    pub fn from_hex(text: &str) -> (r: Option<ObjectId>)
        ensures
            match r {
                Some(id) => object_id_of(text.spec_bytes()) == Some(id@),
                None => object_id_of(text.spec_bytes()) is None,
            },
    {
        let digits = text.as_bytes();
        if digits.len() != 32 {
            return None;
        }
        let mut bytes: [u8; 16] = [0u8;16];
        let mut i: usize = 0;
        while i < 16
            invariant
                i <= 16,
                digits@.len() == 32,
                digits@ == text.spec_bytes(),
                forall|j: int| 0 <= j < 2 * i ==> hex_value(#[trigger] digits@[j]) is Some,
                forall|j: int|
                    0 <= j < i ==> (#[trigger] bytes@[j]) == (hex_value(digits@[2 * j])->0 * 16
                        + hex_value(digits@[2 * j + 1])->0) as u8,
            decreases 16 - i,
        {
            let high = match read_hex(digits[2 * i]) {
                Some(high) => high,
                None => {
                    return None;
                },
            };
            let low = match read_hex(digits[2 * i + 1]) {
                Some(low) => low,
                None => {
                    return None;
                },
            };
            bytes[i] = high * 16 + low;
            assert forall|j: int| 0 <= j < 2 * (i + 1) implies hex_value(
                #[trigger] digits@[j],
            ) is Some by {}
            i = i + 1;
        }
        Some(ObjectId(bytes))
    }

    /// The thirty-two lower-case hexadecimal digits of the identifier.
    pub fn to_hex(&self) -> (r: String)
        ensures
            encode_utf8(r@) == object_id_hex(self@),
    {
        let mut digits: Vec<u8> = Vec::new();
        let mut i: usize = 0;
        while i < 16
            invariant
                i <= 16,
                digits@.len() == 2 * i,
                forall|j: int| 0 <= j < 2 * i ==> #[trigger] digits@[j] == object_id_hex(self@)[j],
            decreases 16 - i,
        {
            let b: u8 = self.0[i];
            digits.push(write_hex(b / 16));
            digits.push(write_hex(b % 16));
            i = i + 1;
        }
        proof {
            lemma_object_id_round_trip(self@);
            lemma_ascii_valid(digits@);
        }
        string_from_utf8(digits).unwrap()
    }
}

/// The body of a variant: the value of the only field of an object, where
/// that field has the given name.
pub open spec fn variant(v: JsonView, name: Seq<char>) -> Option<JsonView> {
    match v {
        JsonView::Object(fields) => if fields.len() == 1 && fields[0].0 == name {
            Some(fields[0].1)
        } else {
            None
        },
        _ => None,
    }
}

/// The object that holds one variant.
pub open spec fn variant_json(name: Seq<char>, body: JsonView) -> JsonView {
    JsonView::Object(seq![(name, body)])
}

/// The object without fields.
pub open spec fn empty_object() -> JsonView {
    JsonView::Object(Seq::empty())
}

/// The storage configuration that a JSON value holds: `{"in_memory": {}}`,
/// `{"local_filesystem": {"root": ..}}` with a text, or `{"cached":
/// {"approx_max_memory_bytes": .., "backend": ..}}` with an integer and a
/// storage configuration.
pub open spec fn storage_of(v: JsonView) -> Option<StorageView>
    decreases v,
{
    if variant(v, "in_memory"@) is Some {
        if variant(v, "in_memory"@) == Some(empty_object()) {
            Some(StorageView::InMemory)
        } else {
            None
        }
    } else if variant(v, "local_filesystem"@) is Some {
        match variant(v, "local_filesystem"@)->0.field("root"@) {
            Some(JsonView::Text(root)) => Some(StorageView::LocalFileSystem { root }),
            _ => None,
        }
    } else if variant(v, "cached"@) is Some {
        let body = variant(v, "cached"@)->0;
        match (body.field("approx_max_memory_bytes"@), body.field("backend"@)) {
            (Some(JsonView::PosInt(approx_max_memory_bytes)), Some(inner)) => {
                proof {
                    lemma_lookup_decreases(body->Object_0, "backend"@);
                }
                match storage_of(inner) {
                    Some(backend) => Some(
                        StorageView::Cached { approx_max_memory_bytes, backend: Box::new(backend) },
                    ),
                    None => None,
                }
            },
            _ => None,
        }
    } else {
        None
    }
}

/// The JSON value of a storage configuration.
pub open spec fn storage_json(c: StorageView) -> JsonView
    decreases c,
{
    match c {
        StorageView::InMemory => variant_json("in_memory"@, empty_object()),
        StorageView::LocalFileSystem { root } => variant_json(
            "local_filesystem"@,
            JsonView::Object(seq![("root"@, JsonView::Text(root))]),
        ),
        StorageView::Cached { approx_max_memory_bytes, backend } => variant_json(
            "cached"@,
            JsonView::Object(
                seq![
                    ("approx_max_memory_bytes"@, JsonView::PosInt(approx_max_memory_bytes)),
                    ("backend"@, storage_json(*backend)),
                ],
            ),
        ),
    }
}

/// The version that a JSON value holds: `{"empty": {}}`, `{"structure_id":
/// ..}` with thirty-two hexadecimal digits, or `{"snapshot_id": ..}` with a
/// text.
pub open spec fn version_of(v: JsonView) -> Option<VersionView> {
    if variant(v, "empty"@) is Some {
        if variant(v, "empty"@) == Some(empty_object()) {
            Some(VersionView::Empty)
        } else {
            None
        }
    } else if variant(v, "structure_id"@) is Some {
        match variant(v, "structure_id"@)->0 {
            JsonView::Text(digits) => match object_id_of(encode_utf8(digits)) {
                Some(id) => Some(VersionView::StructureId(id)),
                None => None,
            },
            _ => None,
        }
    } else if variant(v, "snapshot_id"@) is Some {
        match variant(v, "snapshot_id"@)->0 {
            JsonView::Text(id) => Some(VersionView::SnapshotId(id)),
            _ => None,
        }
    } else {
        None
    }
}

/// The JSON value of a version.
pub open spec fn version_json(version: VersionView) -> JsonView {
    match version {
        VersionView::Empty => variant_json("empty"@, empty_object()),
        VersionView::StructureId(id) => variant_json(
            "structure_id"@,
            JsonView::Text(decode_utf8(object_id_hex(id))),
        ),
        VersionView::SnapshotId(id) => variant_json("snapshot_id"@, JsonView::Text(id)),
    }
}

/// The threshold under the field `inline_chunk_threshold_bytes`, which may
/// be left out or `null`. The outer `None` says that the field holds
/// something that is no integer up to 65535.
pub open spec fn threshold_of(v: JsonView) -> Option<Option<u16>> {
    match v.field("inline_chunk_threshold_bytes"@) {
        None => Some(None),
        Some(JsonView::Null) => Some(None),
        Some(JsonView::PosInt(n)) => if n <= 0xffff {
            Some(Some(n as u16))
        } else {
            None
        },
        _ => None,
    }
}

/// The dataset configuration that a JSON object holds.
pub open spec fn dataset_of(v: JsonView) -> Option<DatasetView> {
    match (v.field("previous_version"@), threshold_of(v)) {
        (Some(version), Some(inline_chunk_threshold_bytes)) => match version_of(version) {
            Some(previous_version) => Some(
                DatasetView { previous_version, inline_chunk_threshold_bytes },
            ),
            None => None,
        },
        _ => None,
    }
}

/// The JSON object of a dataset configuration.
pub open spec fn dataset_json(c: DatasetView) -> JsonView {
    JsonView::Object(
        seq![
            ("previous_version"@, version_json(c.previous_version)),
            (
                "inline_chunk_threshold_bytes"@,
                match c.inline_chunk_threshold_bytes {
                    Some(n) => JsonView::PosInt(n as u64),
                    None => JsonView::Null,
                },
            ),
        ],
    )
}

/// The store configuration that a JSON object holds: a storage
/// configuration under `storage`, a dataset configuration under `dataset`.
pub open spec fn store_config_of(v: JsonView) -> Option<StoreConfigView> {
    match (v.field("storage"@), v.field("dataset"@)) {
        (Some(storage), Some(dataset)) => match (storage_of(storage), dataset_of(dataset)) {
            (Some(storage), Some(dataset)) => Some(StoreConfigView { storage, dataset }),
            _ => None,
        },
        _ => None,
    }
}

/// The JSON object of a store configuration.
pub open spec fn store_config_json(c: StoreConfigView) -> JsonView {
    JsonView::Object(
        seq![("storage"@, storage_json(c.storage)), ("dataset"@, dataset_json(c.dataset))],
    )
}

/// What reading the text `bytes` as a store configuration gives.
pub open spec fn parse_store_config(bytes: Seq<u8>) -> Option<StoreConfigView> {
    match json_document(bytes) {
        Some(doc) => store_config_of(doc),
        None => None,
    }
}

/// The body of the variant `name`, where `v` holds that variant.
fn variant_body<'a>(v: &'a Json, name: &str) -> (r: Option<&'a Json>)
    ensures
        match r {
            Some(body) => variant(v@, name@) == Some(body@) && decreases_to!(*v => *body),
            None => variant(v@, name@) is None,
        },
{
    match v {
        Json::Object(fields) => {
            proof {
                lemma_object_view(*v);
            }
            if fields.len() == 1 && str_eq(fields[0].0.as_str(), name) {
                Some(&fields[0].1)
            } else {
                None
            }
        },
        _ => None,
    }
}

/// The object that holds the variant `name` with the body `body`.
fn variant_object(name: &str, body: Json) -> (r: Json)
    ensures
        r@ == variant_json(name@, body@),
{
    let mut fields: Vec<(String, Json)> = Vec::new();
    fields.push((String::from_str(name), body));
    let r = Json::object(fields);
    assert(r@->Object_0 =~= seq![(name@, body@)]);
    r
}

/// Whether `v` is the object without fields.
fn is_empty_object(v: &Json) -> (r: bool)
    ensures
        r == (v@ == empty_object()),
{
    match v {
        Json::Object(fields) => {
            proof {
                lemma_object_view(*v);
                if fields.len() == 0 {
                    assert(v@->Object_0 =~= Seq::empty());
                }
            }
            fields.len() == 0
        },
        _ => false,
    }
}

/// The object without fields.
fn new_empty_object() -> (r: Json)
    ensures
        r@ == empty_object(),
{
    let r = Json::object(Vec::new());
    assert(r@->Object_0 =~= Seq::empty());
    r
}

impl StorageConfig {
    /// Reads a storage configuration from a JSON value.
    pub fn from_json(v: &Json) -> (r: Option<StorageConfig>)
        ensures
            match r {
                Some(c) => storage_of(v@) == Some(c@),
                None => storage_of(v@) is None,
            },
        decreases v,
    {
        if let Some(body) = variant_body(v, "in_memory") {
            if is_empty_object(body) {
                Some(StorageConfig::InMemory)
            } else {
                None
            }
        } else if let Some(body) = variant_body(v, "local_filesystem") {
            match body.get("root") {
                Some(Json::Text(root)) => Some(StorageConfig::LocalFileSystem { root: root.clone() }),
                _ => None,
            }
        } else if let Some(body) = variant_body(v, "cached") {
            match (body.get("approx_max_memory_bytes"), body.get("backend")) {
                (Some(Json::PosInt(approx_max_memory_bytes)), Some(inner)) => {
                    match StorageConfig::from_json(inner) {
                        Some(backend) => Some(
                            StorageConfig::Cached {
                                approx_max_memory_bytes: *approx_max_memory_bytes,
                                backend: Box::new(backend),
                            },
                        ),
                        None => None,
                    }
                },
                _ => None,
            }
        } else {
            None
        }
    }

    /// The JSON value of the storage configuration.
    pub fn to_json(&self) -> (r: Json)
        ensures
            r@ == storage_json(self@),
        decreases self,
    {
        match self {
            StorageConfig::InMemory => variant_object("in_memory", new_empty_object()),
            StorageConfig::LocalFileSystem { root } => {
                let mut fields: Vec<(String, Json)> = Vec::new();
                fields.push((String::from_str("root"), Json::Text(root.clone())));
                let body = Json::object(fields);
                assert(body@->Object_0 =~= seq![("root"@, JsonView::Text(root@))]);
                variant_object("local_filesystem", body)
            },
            StorageConfig::Cached { approx_max_memory_bytes, backend } => {
                let inner: &StorageConfig = &**backend;
                let mut fields: Vec<(String, Json)> = Vec::new();
                fields.push(
                    (
                        String::from_str("approx_max_memory_bytes"),
                        Json::PosInt(*approx_max_memory_bytes),
                    ),
                );
                fields.push((String::from_str("backend"), inner.to_json()));
                let body = Json::object(fields);
                assert(body@->Object_0 =~= seq![
                    ("approx_max_memory_bytes"@, JsonView::PosInt(*approx_max_memory_bytes)),
                    ("backend"@, storage_json(inner@)),
                ]);
                variant_object("cached", body)
            },
        }
    }
}

impl VersionInfo {
    /// Reads a version from a JSON value.
    pub fn from_json(v: &Json) -> (r: Option<VersionInfo>)
        ensures
            match r {
                Some(version) => version_of(v@) == Some(version@),
                None => version_of(v@) is None,
            },
    {
        if let Some(body) = variant_body(v, "empty") {
            if is_empty_object(body) {
                Some(VersionInfo::Empty)
            } else {
                None
            }
        } else if let Some(body) = variant_body(v, "structure_id") {
            match body {
                Json::Text(digits) => match ObjectId::from_hex(digits.as_str()) {
                    Some(id) => Some(VersionInfo::StructureId(id)),
                    None => None,
                },
                _ => None,
            }
        } else if let Some(body) = variant_body(v, "snapshot_id") {
            match body {
                Json::Text(id) => Some(VersionInfo::SnapshotId(SnapshotId(id.clone()))),
                _ => None,
            }
        } else {
            None
        }
    }

    /// The JSON value of the version.
    pub fn to_json(&self) -> (r: Json)
        ensures
            r@ == version_json(self@),
    {
        match self {
            VersionInfo::Empty => variant_object("empty", new_empty_object()),
            VersionInfo::StructureId(id) => {
                let digits = id.to_hex();
                proof {
                    encode_utf8_decode_utf8(digits@);
                }
                variant_object("structure_id", Json::Text(digits))
            },
            VersionInfo::SnapshotId(id) => variant_object("snapshot_id", Json::Text(id.0.clone())),
        }
    }
}

impl DatasetConfig {
    /// Reads a dataset configuration from a JSON object.
    pub fn from_json(v: &Json) -> (r: Option<DatasetConfig>)
        ensures
            match r {
                Some(c) => dataset_of(v@) == Some(c@),
                None => dataset_of(v@) is None,
            },
    {
        let previous_version = match v.get("previous_version") {
            Some(version) => match VersionInfo::from_json(version) {
                Some(version) => version,
                None => {
                    return None;
                },
            },
            None => {
                return None;
            },
        };
        let inline_chunk_threshold_bytes: Option<u16> = match v.get(
            "inline_chunk_threshold_bytes",
        ) {
            None => None,
            Some(Json::Null) => None,
            Some(Json::PosInt(n)) => {
                if *n <= 0xffff {
                    Some(*n as u16)
                } else {
                    return None;
                }
            },
            _ => {
                return None;
            },
        };
        Some(DatasetConfig { previous_version, inline_chunk_threshold_bytes })
    }

    /// The JSON object of the dataset configuration.
    pub fn to_json(&self) -> (r: Json)
        ensures
            r@ == dataset_json(self@),
    {
        let mut fields: Vec<(String, Json)> = Vec::new();
        fields.push((String::from_str("previous_version"), self.previous_version.to_json()));
        let threshold = match self.inline_chunk_threshold_bytes {
            Some(n) => Json::PosInt(n as u64),
            None => Json::Null,
        };
        fields.push((String::from_str("inline_chunk_threshold_bytes"), threshold));
        let r = Json::object(fields);
        assert(r@->Object_0 =~= dataset_json(self@)->Object_0);
        r
    }
}

impl StoreConfig {
    /// Reads a store configuration from a JSON object.
    pub fn from_json(v: &Json) -> (r: Result<StoreConfig, DocumentError>)
        ensures
            match r {
                Ok(c) => store_config_of(v@) == Some(c@),
                Err(e) => store_config_of(v@) is None && e is Format,
            },
    {
        let storage = match v.get("storage") {
            Some(storage) => StorageConfig::from_json(storage),
            None => None,
        };
        let dataset = match v.get("dataset") {
            Some(dataset) => DatasetConfig::from_json(dataset),
            None => None,
        };
        match (storage, dataset) {
            (Some(storage), Some(dataset)) => Ok(StoreConfig { storage, dataset }),
            _ => Err(DocumentError::Format),
        }
    }

    /// Reads a store configuration from JSON text.
    pub fn from_bytes(bytes: &[u8]) -> (r: Result<StoreConfig, DocumentError>)
        ensures
            match r {
                Ok(c) => parse_store_config(bytes@) == Some(c@),
                Err(e) => parse_store_config(bytes@) is None && (e is Syntax <==> json_document(
                    bytes@,
                ) is None),
            },
    {
        match Json::parse(bytes) {
            Ok(doc) => StoreConfig::from_json(&doc),
            Err(e) => Err(DocumentError::Syntax(e)),
        }
    }

    /// The JSON object of the store configuration.
    pub fn to_json(&self) -> (r: Json)
        ensures
            r@ == store_config_json(self@),
    {
        let mut fields: Vec<(String, Json)> = Vec::new();
        fields.push((String::from_str("storage"), self.storage.to_json()));
        fields.push((String::from_str("dataset"), self.dataset.to_json()));
        let r = Json::object(fields);
        assert(r@->Object_0 =~= store_config_json(self@)->Object_0);
        r
    }

    /// The JSON text of the store configuration.
    pub fn to_bytes(&self) -> (r: Vec<u8>)
        ensures
            r@ == json_text(store_config_json(self@)),
    {
        self.to_json().to_bytes()
    }
}

/// The names of the variants and fields of a configuration differ from each
/// other where they stand side by side.
proof fn lemma_config_names()
    ensures
        "in_memory"@.len() == 9,
        "local_filesystem"@.len() == 16,
        "cached"@.len() == 6,
        "empty"@.len() == 5,
        "structure_id"@.len() == 12,
        "snapshot_id"@.len() == 11,
        "approx_max_memory_bytes"@.len() == 23,
        "backend"@.len() == 7 && "backend"@[0] == 'b',
        "previous_version"@.len() == 16,
        "inline_chunk_threshold_bytes"@.len() == 28,
        "storage"@.len() == 7 && "storage"@[0] == 's',
        "dataset"@.len() == 7 && "dataset"@[0] == 'd',
{
    reveal_strlit("in_memory");
    reveal_strlit("local_filesystem");
    reveal_strlit("cached");
    reveal_strlit("empty");
    reveal_strlit("structure_id");
    reveal_strlit("snapshot_id");
    reveal_strlit("approx_max_memory_bytes");
    reveal_strlit("backend");
    reveal_strlit("previous_version");
    reveal_strlit("inline_chunk_threshold_bytes");
    reveal_strlit("storage");
    reveal_strlit("dataset");
}

/// A storage configuration reads back from its JSON value.
pub proof fn lemma_storage_round_trip(c: StorageView)
    ensures
        storage_of(storage_json(c)) == Some(c),
    decreases c,
{
    lemma_config_names();
    match c {
        StorageView::InMemory => {},
        StorageView::LocalFileSystem { root } => {
            let body = JsonView::Object(seq![("root"@, JsonView::Text(root))]);
            lemma_lookup_index(body->Object_0, 0, "root"@);
        },
        StorageView::Cached { approx_max_memory_bytes, backend } => {
            lemma_storage_round_trip(*backend);
            let body = variant(storage_json(c), "cached"@)->0;
            lemma_lookup_index(body->Object_0, 0, "approx_max_memory_bytes"@);
            lemma_lookup_index(body->Object_0, 1, "backend"@);
        },
    }
}

/// A version with an identifier of sixteen bytes reads back from its JSON
/// value.
pub proof fn lemma_version_round_trip(version: VersionView)
    requires
        version matches VersionView::StructureId(id) ==> id.len() == 16,
    ensures
        version_of(version_json(version)) == Some(version),
{
    lemma_config_names();
    if let VersionView::StructureId(id) = version {
        lemma_object_id_round_trip(id);
        lemma_ascii_valid(object_id_hex(id));
        decode_utf8_encode_utf8(object_id_hex(id));
    }
}

/// Round trip of the configuration: the document written for a
/// configuration reads back as that configuration.
pub proof fn lemma_store_config_round_trip(c: StoreConfigView)
    requires
        c.dataset.previous_version matches VersionView::StructureId(id) ==> id.len() == 16,
    ensures
        store_config_of(store_config_json(c)) == Some(c),
{
    lemma_config_names();
    lemma_storage_round_trip(c.storage);
    lemma_version_round_trip(c.dataset.previous_version);
    let doc = store_config_json(c);
    lemma_lookup_index(doc->Object_0, 0, "storage"@);
    lemma_lookup_index(doc->Object_0, 1, "dataset"@);
    let dataset = dataset_json(c.dataset);
    lemma_lookup_index(dataset->Object_0, 0, "previous_version"@);
    lemma_lookup_index(dataset->Object_0, 1, "inline_chunk_threshold_bytes"@);
}

/// Whether none of the bytes is an upper-case hexadecimal digit.
pub open spec fn lower_case_hex(text: Seq<u8>) -> bool {
    forall|i: int| 0 <= i < text.len() ==> !(0x41 <= #[trigger] text[i] <= 0x46)
}

/// Whether the objects of a storage configuration hold the fields of the
/// configuration and no others.
pub open spec fn storage_exact(v: JsonView) -> bool
    decreases v,
{
    match (variant(v, "local_filesystem"@), variant(v, "cached"@)) {
        (Some(JsonView::Object(fields)), _) => fields.len() == 1,
        (_, Some(JsonView::Object(fields))) => fields.len() == 2 && match lookup(
            fields,
            "backend"@,
        ) {
            Some(inner) => {
                proof {
                    lemma_lookup_decreases(fields, "backend"@);
                }
                storage_exact(inner)
            },
            None => true,
        },
        _ => true,
    }
}

/// Whether a JSON document is a store configuration as it is written: its
/// objects hold the fields of the configuration, each of them and no
/// others, and an object identifier is in lower case.
pub open spec fn config_exact(doc: JsonView) -> bool {
    &&& doc matches JsonView::Object(top)
    &&& top.len() == 2
    &&& doc.field("storage"@) matches Some(storage)
    &&& storage_exact(storage)
    &&& doc.field("dataset"@) matches Some(JsonView::Object(dataset))
    &&& dataset.len() == 2
    &&& lookup(dataset, "inline_chunk_threshold_bytes"@) is Some
    &&& lookup(dataset, "previous_version"@) matches Some(version) ==> (variant(
        version,
        "structure_id"@,
    ) matches Some(JsonView::Text(digits)) ==> lower_case_hex(encode_utf8(digits)))
}

/// The digits of an identifier that was read from lower-case digits are
/// those digits.
pub proof fn lemma_object_id_digits(text: Seq<u8>)
    requires
        object_id_of(text) is Some,
        lower_case_hex(text),
    ensures
        object_id_hex(object_id_of(text)->0) == text,
{
    let id = object_id_of(text)->0;
    assert forall|i: int| 0 <= i < 32 implies object_id_hex(id)[i] == text[i] by {
        let k = i / 2;
        assert(hex_value(text[2 * k]) is Some && hex_value(text[2 * k + 1]) is Some);
        assert(hex_value(text[i]) is Some);
        let high = hex_value(text[2 * k])->0 as int;
        let low = hex_value(text[2 * k + 1])->0 as int;
        assert(id[k] == high * 16 + low);
        assert((high * 16 + low) / 16 == high && (high * 16 + low) % 16 == low);
        if i % 2 == 0 {
            assert(i == 2 * k);
        } else {
            assert(i == 2 * k + 1);
        }
    }
    assert(object_id_hex(id) =~= text);
}

/// Serializing a storage configuration that was read gives back the value
/// that it was read from.
pub proof fn lemma_storage_json_same(v: JsonView)
    requires
        storage_of(v) is Some,
        storage_exact(v),
    ensures
        same_value(storage_json(storage_of(v)->0), v),
    decreases v,
{
    lemma_config_names();
    let fields = v->Object_0;
    if variant(v, "in_memory"@) is Some {
        lemma_same_single("in_memory"@, empty_object(), fields);
    } else if variant(v, "local_filesystem"@) is Some {
        let body = variant(v, "local_filesystem"@)->0;
        let root = body.field("root"@)->0;
        let inner = body->Object_0;
        lemma_lookup_member(inner, "root"@);
        lemma_same_single("root"@, root, inner);
        lemma_same_single(
            "local_filesystem"@,
            JsonView::Object(seq![("root"@, root)]),
            fields,
        );
    } else {
        let body = variant(v, "cached"@)->0;
        let inner = body->Object_0;
        let size = body.field("approx_max_memory_bytes"@)->0;
        let backend = body.field("backend"@)->0;
        lemma_lookup_decreases(inner, "backend"@);
        lemma_storage_json_same(backend);
        lemma_same_pair(
            "approx_max_memory_bytes"@,
            size,
            "backend"@,
            storage_json(storage_of(backend)->0),
            inner,
        );
        lemma_same_single(
            "cached"@,
            JsonView::Object(
                seq![
                    ("approx_max_memory_bytes"@, size),
                    ("backend"@, storage_json(storage_of(backend)->0)),
                ],
            ),
            fields,
        );
    }
}

/// Serializing a version that was read gives back the value that it was
/// read from, where an identifier was in lower case.
pub proof fn lemma_version_json_same(v: JsonView)
    requires
        version_of(v) is Some,
        variant(v, "structure_id"@) matches Some(JsonView::Text(digits)) ==> lower_case_hex(
            encode_utf8(digits),
        ),
    ensures
        same_value(version_json(version_of(v)->0), v),
{
    lemma_config_names();
    let fields = v->Object_0;
    if variant(v, "empty"@) is Some {
        lemma_same_single("empty"@, empty_object(), fields);
    } else if variant(v, "structure_id"@) is Some {
        let digits = variant(v, "structure_id"@)->0->Text_0;
        lemma_object_id_digits(encode_utf8(digits));
        encode_utf8_decode_utf8(digits);
        lemma_same_single("structure_id"@, JsonView::Text(digits), fields);
    } else {
        let id = variant(v, "snapshot_id"@)->0;
        lemma_same_single("snapshot_id"@, id, fields);
    }
}

/// Round trip of the configuration, from the document: a document of a
/// store configuration as it is written reads as a configuration whose own
/// document is the same JSON value: the same fields with the same values,
/// in whatever order.
pub proof fn lemma_store_config_json_same(doc: JsonView)
    requires
        store_config_of(doc) is Some,
        config_exact(doc),
    ensures
        same_value(store_config_json(store_config_of(doc)->0), doc),
{
    lemma_config_names();
    let c = store_config_of(doc)->0;
    let top = doc->Object_0;
    let storage = doc.field("storage"@)->0;
    let dataset = doc.field("dataset"@)->0;
    let inner = dataset->Object_0;
    let version = lookup(inner, "previous_version"@)->0;
    let threshold = lookup(inner, "inline_chunk_threshold_bytes"@)->0;
    lemma_storage_json_same(storage);
    lemma_version_json_same(version);
    lemma_same_pair(
        "previous_version"@,
        version_json(c.dataset.previous_version),
        "inline_chunk_threshold_bytes"@,
        threshold,
        inner,
    );
    lemma_same_pair("storage"@, storage_json(c.storage), "dataset"@, dataset_json(c.dataset), top);
}

} // verus!
