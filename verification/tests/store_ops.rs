use std::collections::BTreeMap;

use zarr_store::engine::{ChunkAddress, Node, NodeData, Reply, Request, UserAttributesStructure};
use zarr_store::error::{DatasetError, KeyNotFoundError, StoreError};
use zarr_store::path::{ChunkIndices, Path};
use zarr_store::store::{Outcome, Step, Store};

/// A dataset engine that keeps everything in memory: the nodes in the order
/// in which they were added, chunks of more than `inline_threshold` bytes in
/// a storage of their own under a running number.
struct MemoryDataset {
    nodes: Vec<Node>,
    inline: BTreeMap<(Vec<u8>, Vec<u64>), Vec<u8>>,
    external: BTreeMap<(Vec<u8>, Vec<u64>), u64>,
    chunk_storage: BTreeMap<u64, Vec<u8>>,
    inline_threshold: usize,
    next_id: u64,
}

fn failed(message: &str) -> Reply {
    Reply::Failed(DatasetError { message: message.to_string() })
}

impl MemoryDataset {
    fn new() -> Self {
        MemoryDataset {
            nodes: Vec::new(),
            inline: BTreeMap::new(),
            external: BTreeMap::new(),
            chunk_storage: BTreeMap::new(),
            inline_threshold: 512,
            next_id: 0,
        }
    }

    fn find(&self, path: &Path) -> Option<usize> {
        self.nodes.iter().position(|n| &n.path == path)
    }

    fn is_array(&self, path: &Path) -> bool {
        matches!(self.find(path), Some(i) if matches!(self.nodes[i].node_data, NodeData::Array(_)))
    }

    fn address(path: &Path, coords: &ChunkIndices) -> (Vec<u8>, Vec<u64>) {
        (path.as_bytes().to_vec(), coords.0.clone())
    }

    fn chunk_ids(&self) -> Vec<u64> {
        self.chunk_storage.keys().copied().collect()
    }

    fn perform(&mut self, request: Request) -> Reply {
        match request {
            Request::GetNode { path } => match self.find(&path) {
                Some(i) => Reply::Node(self.nodes[i].clone()),
                None => failed("node not found"),
            },
            Request::GetArray { path } => match self.find(&path) {
                Some(i) if self.is_array(&path) => Reply::Node(self.nodes[i].clone()),
                _ => failed("no array there"),
            },
            Request::GetGroup { path } => match self.find(&path) {
                Some(i) if !self.is_array(&path) => Reply::Node(self.nodes[i].clone()),
                _ => failed("no group there"),
            },
            Request::GetChunk { path, coords } => {
                if !self.is_array(&path) {
                    return failed("no array there");
                }
                let address = Self::address(&path, &coords);
                if let Some(bytes) = self.inline.get(&address) {
                    Reply::Chunk(Some(bytes.clone()))
                } else if let Some(id) = self.external.get(&address) {
                    Reply::Chunk(self.chunk_storage.get(id).cloned())
                } else {
                    Reply::Chunk(None)
                }
            }
            Request::AddGroup { path } => {
                if self.find(&path).is_some() {
                    return failed("node already exists");
                }
                self.nodes.push(Node { path, user_attributes: None, node_data: NodeData::Group });
                Reply::Done
            }
            Request::AddArray { path, metadata } => {
                if self.find(&path).is_some() {
                    return failed("node already exists");
                }
                self.nodes.push(Node {
                    path,
                    user_attributes: None,
                    node_data: NodeData::Array(metadata),
                });
                Reply::Done
            }
            Request::UpdateArray { path, metadata } => match self.find(&path) {
                Some(i) if self.is_array(&path) => {
                    self.nodes[i].node_data = NodeData::Array(metadata);
                    Reply::Done
                }
                _ => failed("no array there"),
            },
            Request::SetUserAttributes { path, attributes } => match self.find(&path) {
                Some(i) => {
                    self.nodes[i].user_attributes =
                        attributes.map(UserAttributesStructure::Inline);
                    Reply::Done
                }
                None => failed("node not found"),
            },
            Request::DeleteGroup { path } => match self.find(&path) {
                Some(i) if !self.is_array(&path) => {
                    self.nodes.remove(i);
                    Reply::Done
                }
                _ => failed("no group there"),
            },
            Request::DeleteArray { path } => match self.find(&path) {
                Some(i) if self.is_array(&path) => {
                    self.nodes.remove(i);
                    let bytes = path.as_bytes().to_vec();
                    self.inline.retain(|k, _| k.0 != bytes);
                    self.external.retain(|k, _| k.0 != bytes);
                    Reply::Done
                }
                _ => failed("no array there"),
            },
            Request::SetChunk { path, coords, data } => {
                if !self.is_array(&path) {
                    return failed("no array there");
                }
                let address = Self::address(&path, &coords);
                self.inline.remove(&address);
                self.external.remove(&address);
                if data.len() <= self.inline_threshold {
                    self.inline.insert(address, data);
                } else {
                    let id = self.next_id;
                    self.next_id += 1;
                    self.chunk_storage.insert(id, data);
                    self.external.insert(address, id);
                }
                Reply::Done
            }
            Request::ClearChunk { path, coords } => {
                let address = Self::address(&path, &coords);
                self.inline.remove(&address);
                self.external.remove(&address);
                Reply::Done
            }
            Request::ListNodes => Reply::Nodes(self.nodes.clone()),
            Request::AllChunks => Reply::Chunks(
                self.inline
                    .keys()
                    .chain(self.external.keys())
                    .map(|(path, coords)| ChunkAddress {
                        path: Path::from_bytes(path.clone()).unwrap(),
                        coords: ChunkIndices(coords.clone()),
                    })
                    .collect(),
            ),
        }
    }
}

/// Carries an operation to its end: makes each call that a step asks for and
/// resumes with the answer.
fn run(store: &mut Store<MemoryDataset>, first: Step) -> Result<Outcome, StoreError> {
    let mut step = first;
    loop {
        match step {
            Step::Return(result) => return result,
            Step::Call { request, then } => {
                let reply = store.engine_mut().perform(request);
                assert!(then.accepts(&reply));
                step = then.resume(reply);
            }
        }
    }
}

fn get(store: &mut Store<MemoryDataset>, key: &str) -> Result<Vec<u8>, StoreError> {
    let step = store.get(key, &(None, None));
    match run(store, step)? {
        Outcome::Bytes(bytes) => Ok(bytes),
        other => panic!("a read returned {:?}", other),
    }
}

fn key_exists(store: &mut Store<MemoryDataset>, key: &str) -> Result<bool, StoreError> {
    let step = store.key_exists(key);
    match run(store, step)? {
        Outcome::Flag(flag) => Ok(flag),
        other => panic!("a question returned {:?}", other),
    }
}

fn empty(store: &mut Store<MemoryDataset>) -> Result<bool, StoreError> {
    let step = store.empty();
    match run(store, step)? {
        Outcome::Flag(flag) => Ok(flag),
        other => panic!("a question returned {:?}", other),
    }
}

fn set(store: &mut Store<MemoryDataset>, key: &str, value: &[u8]) -> Result<(), StoreError> {
    let step = store.set(key, value.to_vec());
    match run(store, step)? {
        Outcome::Done => Ok(()),
        other => panic!("a write returned {:?}", other),
    }
}

fn delete(store: &mut Store<MemoryDataset>, key: &str) -> Result<(), StoreError> {
    let step = store.delete(key);
    match run(store, step)? {
        Outcome::Done => Ok(()),
        other => panic!("a deletion returned {:?}", other),
    }
}

fn listed(store: &mut Store<MemoryDataset>, step: Step) -> Result<Vec<String>, StoreError> {
    match run(store, step)? {
        Outcome::Keys(keys) => Ok(keys),
        other => panic!("a listing returned {:?}", other),
    }
}

fn list_prefix(store: &mut Store<MemoryDataset>, prefix: &str) -> Result<Vec<String>, StoreError> {
    let step = store.list_prefix(prefix);
    listed(store, step)
}

fn list_dir(store: &mut Store<MemoryDataset>, prefix: &str) -> Result<Vec<String>, StoreError> {
    let step = store.list_dir(prefix);
    listed(store, step)
}

fn keys(store: &mut Store<MemoryDataset>, prefix: &str) -> Vec<String> {
    let mut res = list_prefix(store, prefix).unwrap();
    res.sort();
    res
}

fn all_keys(store: &mut Store<MemoryDataset>) -> Vec<String> {
    let version1 = keys(store, "/");
    let step = store.list();
    let mut version2 = listed(store, step).unwrap();
    version2.sort();
    assert_eq!(version1, version2);
    version1
}

fn new_store() -> Store<MemoryDataset> {
    Store::new(MemoryDataset::new())
}

const GROUP: &[u8] = br#"{"zarr_format":3, "node_type":"group"}"#;

const ARRAY: &[u8] = br#"{"zarr_format":3,"node_type":"array","attributes":{"foo":42},"shape":[2,2,2],"data_type":"int32","chunk_grid":{"name":"regular","configuration":{"chunk_shape":[1,1,1]}},"chunk_key_encoding":{"name":"default","configuration":{"separator":"/"}},"fill_value":0,"codecs":[{"name":"mycodec","configuration":{"foo":42}}],"storage_transformers":[{"name":"mytransformer","configuration":{"bar":43}}],"dimension_names":["x","y","t"]}"#;

#[test]
fn test_metadata_set_and_get() {
    let mut store = new_store();

    assert!(matches!(
        get(&mut store, "zarr.json"),
        Err(StoreError::NotFound(KeyNotFoundError::NodeNotFound {path})) if path.to_str() == Some("/")
    ));

    set(&mut store, "zarr.json", GROUP).unwrap();
    assert_eq!(
        get(&mut store, "zarr.json").unwrap(),
        br#"{"zarr_format":3,"node_type":"group","attributes":null}"#.to_vec()
    );

    set(
        &mut store,
        "a/b/zarr.json",
        br#"{"zarr_format":3, "node_type":"group", "attributes": {"spam":"ham", "eggs":42}}"#,
    )
    .unwrap();
    assert_eq!(
        get(&mut store, "a/b/zarr.json").unwrap(),
        br#"{"zarr_format":3,"node_type":"group","attributes":{"eggs":42,"spam":"ham"}}"#.to_vec()
    );

    set(&mut store, "a/b/array/zarr.json", ARRAY).unwrap();
    assert_eq!(get(&mut store, "a/b/array/zarr.json").unwrap(), ARRAY.to_vec());
}

#[test]
fn test_metadata_delete() {
    let mut store = new_store();
    let group_data = br#"{"zarr_format":3, "node_type":"group", "attributes": {"spam":"ham", "eggs":42}}"#;

    set(&mut store, "zarr.json", GROUP).unwrap();
    set(&mut store, "array/zarr.json", ARRAY).unwrap();

    delete(&mut store, "array/zarr.json").unwrap();
    assert!(matches!(
        get(&mut store, "array/zarr.json"),
        Err(StoreError::NotFound(KeyNotFoundError::NodeNotFound { path }))
            if path.to_str() == Some("/array"),
    ));
    set(&mut store, "array/zarr.json", ARRAY).unwrap();
    delete(&mut store, "array/zarr.json").unwrap();
    assert!(matches!(
        get(&mut store, "array/zarr.json"),
        Err(StoreError::NotFound(KeyNotFoundError::NodeNotFound { path } ))
            if path.to_str() == Some("/array"),
    ));
    set(&mut store, "array/zarr.json", group_data).unwrap();
}

#[test]
fn test_chunk_set_and_get() {
    let mut store = new_store();

    set(&mut store, "zarr.json", GROUP).unwrap();
    set(&mut store, "array/zarr.json", ARRAY).unwrap();

    // a small inline chunk
    let small_data = b"hello".to_vec();
    set(&mut store, "array/c/0/1/0", &small_data).unwrap();
    assert_eq!(get(&mut store, "array/c/0/1/0").unwrap(), small_data);
    // no new chunks written because it was inline
    assert!(store.engine().chunk_ids().is_empty());

    // a big chunk
    let big_data = b"hello".repeat(512);
    set(&mut store, "array/c/0/1/1", &big_data).unwrap();
    assert_eq!(get(&mut store, "array/c/0/1/1").unwrap(), big_data);
    let chunk_id = store.engine().chunk_ids().iter().next().cloned().unwrap();
    assert_eq!(store.engine().chunk_storage.get(&chunk_id), Some(&big_data));

    let ds = store.dataset();
    let mut store = Store::new(ds);
    assert_eq!(get(&mut store, "array/c/0/1/0").unwrap(), small_data);
    assert_eq!(get(&mut store, "array/c/0/1/1").unwrap(), big_data);
}

#[test]
fn test_chunk_delete() {
    let mut store = new_store();

    set(&mut store, "zarr.json", GROUP).unwrap();
    set(&mut store, "array/zarr.json", ARRAY).unwrap();

    let data = b"hello".to_vec();
    set(&mut store, "array/c/0/1/0", &data).unwrap();

    // delete chunk
    delete(&mut store, "array/c/0/1/0").unwrap();
    // deleting a deleted chunk is allowed
    delete(&mut store, "array/c/0/1/0").unwrap();
    // deleting non-existent chunk is allowed
    delete(&mut store, "array/c/1/1/1").unwrap();
    assert!(matches!(
        get(&mut store, "array/c/0/1/0"),
        Err(StoreError::NotFound(KeyNotFoundError::ChunkNotFound { key, path, coords }))
            if key == "array/c/0/1/0" && path.to_str() == Some("/array") && coords == ChunkIndices([0, 1, 0].to_vec())
    ));
    assert!(matches!(
        delete(&mut store, "array/foo"),
        Err(StoreError::InvalidKey { key }) if key == "array/foo",
    ));
    // deleting a chunk outside the array's grid is let through
    delete(&mut store, "array/c/10/1/1").unwrap();
}

#[test]
fn test_metadata_list() {
    let mut store = new_store();

    assert!(matches!(list_prefix(&mut store, ""), Err(StoreError::BadKeyPrefix(p)) if p.is_empty()));
    assert!(matches!(list_prefix(&mut store, "foo"), Err(StoreError::BadKeyPrefix(p)) if p == "foo"));
    assert!(
        matches!(list_prefix(&mut store, "foo/bar"), Err(StoreError::BadKeyPrefix(p)) if p == "foo/bar")
    );
    assert!(
        matches!(list_prefix(&mut store, "/foo/bar"), Err(StoreError::BadKeyPrefix(p)) if p == "/foo/bar")
    );

    assert!(empty(&mut store).unwrap());
    assert!(!key_exists(&mut store, "zarr.json").unwrap());

    assert_eq!(all_keys(&mut store), Vec::<String>::new());
    set(&mut store, "zarr.json", GROUP).unwrap();

    assert!(!empty(&mut store).unwrap());
    assert!(key_exists(&mut store, "zarr.json").unwrap());
    assert_eq!(all_keys(&mut store), vec!["zarr.json".to_string()]);
    set(&mut store, "group/zarr.json", GROUP).unwrap();
    assert_eq!(
        all_keys(&mut store),
        vec!["group/zarr.json".to_string(), "zarr.json".to_string()]
    );
    assert_eq!(keys(&mut store, "group/"), vec!["group/zarr.json".to_string()]);

    set(&mut store, "group/array/zarr.json", ARRAY).unwrap();
    assert!(!empty(&mut store).unwrap());
    assert!(key_exists(&mut store, "zarr.json").unwrap());
    assert!(key_exists(&mut store, "group/array/zarr.json").unwrap());
    assert!(key_exists(&mut store, "group/zarr.json").unwrap());
    assert_eq!(
        all_keys(&mut store),
        vec![
            "group/array/zarr.json".to_string(),
            "group/zarr.json".to_string(),
            "zarr.json".to_string()
        ]
    );
    assert_eq!(
        keys(&mut store, "group/"),
        vec!["group/array/zarr.json".to_string(), "group/zarr.json".to_string()]
    );
    assert_eq!(
        keys(&mut store, "group/array/"),
        vec!["group/array/zarr.json".to_string()]
    );
}

fn store_with_array_and_chunks() -> Store<MemoryDataset> {
    let mut store = new_store();
    set(&mut store, "zarr.json", GROUP).unwrap();
    set(&mut store, "array/zarr.json", ARRAY).unwrap();
    let data = b"hello".to_vec();
    set(&mut store, "array/c/0/1/0", &data).unwrap();
    set(&mut store, "array/c/1/1/1", &data).unwrap();
    store
}

#[test]
fn test_chunk_list() {
    let mut store = store_with_array_and_chunks();
    assert_eq!(
        all_keys(&mut store),
        vec![
            "array/c/0/1/0".to_string(),
            "array/c/1/1/1".to_string(),
            "array/zarr.json".to_string(),
            "zarr.json".to_string()
        ]
    );
}

#[test]
fn test_list_dir() {
    let mut store = store_with_array_and_chunks();
    assert_eq!(
        all_keys(&mut store),
        vec![
            "array/c/0/1/0".to_string(),
            "array/c/1/1/1".to_string(),
            "array/zarr.json".to_string(),
            "zarr.json".to_string()
        ]
    );

    let mut dir = list_dir(&mut store, "/").unwrap();
    dir.sort();
    assert_eq!(dir, vec!["array".to_string(), "zarr.json".to_string()]);

    let mut dir = list_dir(&mut store, "array/").unwrap();
    dir.sort();
    assert_eq!(dir, vec!["c".to_string(), "zarr.json".to_string()]);

    let mut dir = list_dir(&mut store, "array/c/").unwrap();
    dir.sort();
    assert_eq!(dir, vec!["0".to_string(), "1".to_string()]);

    let mut dir = list_dir(&mut store, "array/c/1/").unwrap();
    dir.sort();
    assert_eq!(dir, vec!["1".to_string()]);
}

#[test]
fn listing_puts_metadata_keys_before_chunk_keys() {
    let mut store = store_with_array_and_chunks();
    let listing = list_prefix(&mut store, "/").unwrap();
    assert_eq!(
        listing,
        vec![
            "zarr.json".to_string(),
            "array/zarr.json".to_string(),
            "array/c/0/1/0".to_string(),
            "array/c/1/1/1".to_string(),
        ]
    );
}

#[test]
fn list_dir_needs_a_trailing_slash() {
    let mut store = store_with_array_and_chunks();
    assert!(matches!(list_dir(&mut store, "array"), Err(StoreError::BadKeyPrefix(p)) if p == "array"));
    assert!(matches!(list_dir(&mut store, ""), Err(StoreError::BadKeyPrefix(p)) if p.is_empty()));
}

#[test]
fn list_dir_passes_over_keys_that_are_too_short_for_the_prefix() {
    let mut store = new_store();
    set(&mut store, "zarr.json", ARRAY).unwrap();
    set(&mut store, "c", b"x").unwrap();
    set(&mut store, "cc/zarr.json", GROUP).unwrap();
    // the stem `c` takes in the root's chunk `c` and the node `cc`
    assert_eq!(keys(&mut store, "c/"), vec!["c".to_string(), "cc/zarr.json".to_string()]);
    // `c` has no second byte; `cc/zarr.json` has nothing between its second byte and the slash
    assert_eq!(list_dir(&mut store, "c/").unwrap(), vec!["".to_string()]);
}

#[test]
fn array_metadata_over_a_group_cannot_update() {
    let mut store = new_store();
    set(&mut store, "group/zarr.json", GROUP).unwrap();
    assert!(matches!(
        set(&mut store, "group/zarr.json", ARRAY),
        Err(StoreError::CannotUpdate(e)) if e.message == "node already exists"
    ));
    // and the other way round
    set(&mut store, "array/zarr.json", ARRAY).unwrap();
    assert!(matches!(
        set(&mut store, "array/zarr.json", GROUP),
        Err(StoreError::CannotUpdate(_))
    ));
}

#[test]
fn metadata_is_updated_in_place() {
    let mut store = new_store();
    set(&mut store, "a/zarr.json", GROUP).unwrap();
    set(
        &mut store,
        "a/zarr.json",
        br#"{"zarr_format":3,"node_type":"group","attributes":{"k":[1,2]}}"#,
    )
    .unwrap();
    assert_eq!(
        get(&mut store, "a/zarr.json").unwrap(),
        br#"{"zarr_format":3,"node_type":"group","attributes":{"k":[1,2]}}"#.to_vec()
    );
    set(&mut store, "arr/zarr.json", ARRAY).unwrap();
    let other = String::from_utf8(ARRAY.to_vec()).unwrap().replace("[2,2,2]", "[4,4,4]");
    set(&mut store, "arr/zarr.json", other.as_bytes()).unwrap();
    assert_eq!(get(&mut store, "arr/zarr.json").unwrap(), other.as_bytes().to_vec());
    assert_eq!(store.engine().nodes.len(), 2);
}

#[test]
fn bad_metadata_is_refused() {
    let mut store = new_store();
    assert!(matches!(
        set(&mut store, "zarr.json", b"{not json"),
        Err(StoreError::BadMetadata(zarr_store::error::DocumentError::Syntax(_)))
    ));
    assert!(matches!(
        set(&mut store, "zarr.json", br#"{"node_type":"group"}"#),
        Err(StoreError::BadMetadata(zarr_store::error::DocumentError::Format))
    ));
    assert!(matches!(
        set(&mut store, "zarr.json", br#"[1,2,3]"#),
        Err(StoreError::BadMetadata(zarr_store::error::DocumentError::Format))
    ));
    assert!(empty(&mut store).unwrap());
}

#[test]
fn array_metadata_with_a_bad_fill_value_is_refused() {
    let mut store = new_store();
    let v = br#"{"zarr_format":3,"node_type":"array","attributes":null,"shape":[2],"data_type":"int32","chunk_grid":{"name":"regular","configuration":{"chunk_shape":[1]}},"chunk_key_encoding":{"name":"default","configuration":{"separator":"/"}},"fill_value":"x","codecs":[],"storage_transformers":null,"dimension_names":null}"#;
    assert!(matches!(
        set(&mut store, "zarr.json", v),
        Err(StoreError::BadMetadata(zarr_store::error::DocumentError::Format))
    ));
    assert!(empty(&mut store).unwrap());
    assert!(store.engine().nodes.is_empty());

    let text = String::from_utf8(ARRAY.to_vec())
        .unwrap()
        .replace("\"fill_value\":0", "\"fill_value\":2147483648");
    assert!(matches!(
        set(&mut store, "a/zarr.json", text.as_bytes()),
        Err(StoreError::BadMetadata(zarr_store::error::DocumentError::Format))
    ));
    assert!(empty(&mut store).unwrap());
}

#[test]
fn a_document_that_calls_itself_an_array_is_never_written_as_a_group() {
    let mut store = new_store();
    for payload in [
        &br#"{"zarr_format":3,"node_type":"array"}"#[..],
        &br#"{"zarr_format":3,"node_type":"array","attributes":{"a":1}}"#[..],
        &br#"{"zarr_format":3,"node_type":"array","shape":[2],"data_type":"int33"}"#[..],
    ] {
        match store.set("zarr.json", payload.to_vec()) {
            Step::Return(Err(StoreError::BadMetadata(
                zarr_store::error::DocumentError::Format,
            ))) => {}
            other => panic!("the write began with {:?}", other),
        }
    }
    assert!(empty(&mut store).unwrap());
    // a group may call itself anything else
    set(&mut store, "zarr.json", br#"{"zarr_format":3,"node_type":"folder"}"#).unwrap();
    assert_eq!(
        get(&mut store, "zarr.json").unwrap(),
        br#"{"zarr_format":3,"node_type":"group","attributes":null}"#.to_vec()
    );
}

#[test]
fn invalid_keys_are_refused_by_every_operation() {
    let mut store = new_store();
    assert!(matches!(get(&mut store, "/zarr.json"), Err(StoreError::InvalidKey { key }) if key == "/zarr.json"));
    assert!(matches!(set(&mut store, "foo", b"x"), Err(StoreError::InvalidKey { key }) if key == "foo"));
    assert!(matches!(delete(&mut store, ""), Err(StoreError::InvalidKey { key }) if key.is_empty()));
    assert!(matches!(key_exists(&mut store, "a/b"), Err(StoreError::InvalidKey { key }) if key == "a/b"));
}

#[test]
fn exists_is_get_without_the_value() {
    let mut store = store_with_array_and_chunks();
    for key in ["zarr.json", "array/zarr.json", "array/c/0/1/0", "array/c/1/1/1"] {
        assert!(get(&mut store, key).is_ok());
        assert!(key_exists(&mut store, key).unwrap());
    }
    for key in ["nothing/zarr.json", "array/c/0/0/0"] {
        assert!(matches!(get(&mut store, key), Err(StoreError::NotFound(_))));
        assert!(!key_exists(&mut store, key).unwrap());
    }
    // a chunk of something that is no array: the engine fails, and so do both
    assert!(matches!(get(&mut store, "c/0"), Err(StoreError::InvalidKey { .. })));
    assert!(matches!(get(&mut store, "nothing/c/0"), Err(StoreError::CannotUpdate(_))));
    assert!(matches!(key_exists(&mut store, "nothing/c/0"), Err(StoreError::CannotUpdate(_))));
}

#[test]
fn deleting_a_missing_node_fails() {
    let mut store = new_store();
    assert!(matches!(
        delete(&mut store, "a/zarr.json"),
        Err(StoreError::NotFound(KeyNotFoundError::NodeNotFound { path })) if path.to_str() == Some("/a")
    ));
    set(&mut store, "a/zarr.json", GROUP).unwrap();
    delete(&mut store, "a/zarr.json").unwrap();
    assert!(empty(&mut store).unwrap());
}

#[test]
fn a_store_is_opened_from_its_configuration() {
    let config = zarr_store::config::StoreConfig::from_bytes(
        br#"{"storage":{"in_memory":{}},"dataset":{"previous_version":{"empty":{}},"inline_chunk_threshold_bytes":5}}"#,
    )
    .unwrap();
    let mut store = Store::from_config(&config, |config| {
        let mut dataset = MemoryDataset::new();
        dataset.inline_threshold =
            config.dataset.inline_chunk_threshold_bytes.map_or(512, usize::from);
        Ok(dataset)
    })
    .unwrap();
    assert!(empty(&mut store).unwrap());
    set(&mut store, "zarr.json", ARRAY).unwrap();
    set(&mut store, "c", b"hello").unwrap();
    assert!(store.engine().chunk_ids().is_empty());
    set(&mut store, "c", b"hello!").unwrap();
    assert_eq!(store.engine().chunk_ids().len(), 1);

    let refused: Result<Store<MemoryDataset>, String> =
        Store::from_config(&config, |_| Err("snapshots cannot be opened".to_string()));
    assert_eq!(refused.err(), Some("snapshots cannot be opened".to_string()));
}

#[test]
fn a_store_is_opened_from_the_text_of_its_configuration() {
    let json = br#"{"storage":{"cached":{"approx_max_memory_bytes":7,"backend":{"in_memory":{}}}},"dataset":{"previous_version":{"structure_id":"000102030405060708090a0b0c0d0e0f"},"inline_chunk_threshold_bytes":9}}"#;
    let mut seen = None;
    let mut store = Store::from_json_config(json, |config| {
        seen = Some(config.clone());
        Ok(MemoryDataset::new())
    })
    .unwrap();
    assert_eq!(seen, Some(zarr_store::config::StoreConfig::from_bytes(json).unwrap()));
    assert!(empty(&mut store).unwrap());

    let refused: Result<Store<MemoryDataset>, String> =
        Store::from_json_config(json, |_| Err("no such structure".to_string()));
    assert_eq!(refused.err(), Some("no such structure".to_string()));

    // a text that is no configuration opens nothing
    let mut opened = false;
    let no_config: Result<Store<MemoryDataset>, String> =
        Store::from_json_config(br#"{"storage":{"in_memory":{}}}"#, |_| {
            opened = true;
            Ok(MemoryDataset::new())
        });
    assert_eq!(no_config.err(), Some("not a document of the kind asked for".to_string()));
    let no_json: Result<Store<MemoryDataset>, String> =
        Store::from_json_config(b"{\"storage\":", |_| {
            opened = true;
            Ok(MemoryDataset::new())
        });
    let by_serde = serde_json::from_slice::<serde_json::Value>(b"{\"storage\":").unwrap_err();
    assert_eq!(no_json.err(), Some(by_serde.to_string()));
    assert!(!opened);
}

#[test]
fn capabilities() {
    let mut store = new_store();
    assert!(matches!(store.supports_writes(), Ok(true)));
    assert!(matches!(store.supports_partial_writes(), Ok(false)));
    assert!(matches!(store.supports_listing(), Ok(true)));
    assert!(matches!(
        store.set_partial_values(&vec![("a/c/0".to_string(), 0, vec![1])]),
        Err(StoreError::Unimplemented("set_partial_values"))
    ));
    assert!(matches!(store.clear(), Err(StoreError::Unimplemented("clear"))));
}

#[test]
fn partial_values_come_in_the_order_of_the_keys() {
    let mut store = store_with_array_and_chunks();
    let wanted = vec![
        ("array/c/0/1/0".to_string(), (None, None)),
        ("array/foo".to_string(), (None, None)),
        ("zarr.json".to_string(), (Some(1), Some(2))),
        ("array/c/5/5/5".to_string(), (None, None)),
    ];
    let steps = store.get_partial_values(&wanted);
    assert_eq!(steps.len(), 4);
    let mut outputs = Vec::new();
    for step in steps {
        let result = run(&mut store, step).map(|outcome| match outcome {
            Outcome::Bytes(bytes) => bytes,
            other => panic!("a read returned {:?}", other),
        });
        outputs.push(Ok(result));
    }
    let results = zarr_store::store::collect_partial_values(outputs).unwrap();
    assert_eq!(results.len(), 4);
    assert_eq!(results[0].as_ref().unwrap(), &b"hello".to_vec());
    assert!(matches!(&results[1], Err(StoreError::InvalidKey { key }) if key == "array/foo"));
    assert_eq!(
        results[2].as_ref().unwrap(),
        &br#"{"zarr_format":3,"node_type":"group","attributes":null}"#.to_vec()
    );
    assert!(matches!(&results[3], Err(StoreError::NotFound(KeyNotFoundError::ChunkNotFound { .. }))));
}

#[test]
fn a_read_that_could_not_be_joined_fails_the_whole() {
    let outputs = vec![
        Ok(Ok(vec![1u8])),
        Err("task 1 panicked".to_string()),
        Ok(Err(StoreError::Unknown("x".to_string()))),
        Err("task 3 panicked".to_string()),
    ];
    assert!(matches!(
        zarr_store::store::collect_partial_values(outputs),
        Err(StoreError::Unknown(message)) if message == "task 1 panicked"
    ));
    assert!(matches!(zarr_store::store::collect_partial_values(vec![]), Ok(results) if results.is_empty()));
}

#[test]
fn a_node_with_attributes_by_reference_is_not_accepted_by_a_read() {
    let store = new_store();
    let node = Node {
        path: Path::root(),
        user_attributes: Some(UserAttributesStructure::Ref),
        node_data: NodeData::Group,
    };
    match store.get("zarr.json", &(None, None)) {
        Step::Call { request, then } => {
            assert_eq!(request, Request::GetNode { path: Path::root() });
            assert!(!then.accepts(&Reply::Node(node)));
            assert!(!then.accepts(&Reply::Done));
            assert!(then.accepts(&failed("gone")));
        }
        Step::Return(_) => panic!("a read of a metadata key asks for the node"),
    }
}
