use zarr_store::config::{
    DatasetConfig, ObjectId, SnapshotId, StorageConfig, StoreConfig, VersionInfo,
};
use zarr_store::data_type::{check_fits, DataType, FillValue};
use zarr_store::envelope::{ChunkKeyEncoding, ChunkShape, NameConfigSerializer};
use zarr_store::error::DocumentError;
use zarr_store::json::Json;
use zarr_store::metadata::{
    ArrayMetadata, Descriptor, GroupMetadata, UserAttributes, ZarrArrayMetadata,
    ZarrArrayMetadataSerialzer,
};

fn json(text: &str) -> Json {
    Json::parse(text.as_bytes()).unwrap()
}

fn text(value: &Json) -> String {
    String::from_utf8(value.to_bytes()).unwrap()
}

#[test]
fn test_store_config_deserialization() {
    let expected = StoreConfig {
        storage: StorageConfig::Cached {
            approx_max_memory_bytes: 1_000_000,
            backend: Box::new(StorageConfig::LocalFileSystem { root: "/tmp/test".into() }),
        },
        dataset: DatasetConfig {
            inline_chunk_threshold_bytes: Some(128),
            previous_version: VersionInfo::StructureId(ObjectId([
                0, 1, 2, 3, 4, 5, 6, 7, 8, 9, 10, 11, 12, 13, 14, 15,
            ])),
        },
    };

    let json = r#"
            {"storage":
                {"cached":{
                    "approx_max_memory_bytes":1000000,
                    "backend":{"local_filesystem":{"root":"/tmp/test"}}
                }},
             "dataset": {
                "previous_version":{"structure_id":"000102030405060708090a0b0c0d0e0f"},
                "inline_chunk_threshold_bytes":128
            }}
        "#;
    let config = StoreConfig::from_bytes(json.as_bytes()).unwrap();
    assert_eq!(expected, config);
}

#[test]
fn store_config_round_trip() {
    let configs = vec![
        StoreConfig {
            storage: StorageConfig::InMemory,
            dataset: DatasetConfig {
                previous_version: VersionInfo::Empty,
                inline_chunk_threshold_bytes: None,
            },
        },
        StoreConfig {
            storage: StorageConfig::Cached {
                approx_max_memory_bytes: u64::MAX,
                backend: Box::new(StorageConfig::Cached {
                    approx_max_memory_bytes: 0,
                    backend: Box::new(StorageConfig::LocalFileSystem { root: "/a \"b\"".into() }),
                }),
            },
            dataset: DatasetConfig {
                previous_version: VersionInfo::StructureId(ObjectId([
                    0xff, 0xa0, 0x0b, 0, 1, 2, 3, 4, 5, 6, 7, 8, 9, 0x10, 0x7f, 0x80,
                ])),
                inline_chunk_threshold_bytes: Some(u16::MAX),
            },
        },
        StoreConfig {
            storage: StorageConfig::InMemory,
            dataset: DatasetConfig {
                previous_version: VersionInfo::SnapshotId(SnapshotId("later".into())),
                inline_chunk_threshold_bytes: Some(0),
            },
        },
    ];
    for config in configs {
        let bytes = config.to_bytes();
        assert_eq!(StoreConfig::from_bytes(&bytes).unwrap(), config);
        // and what was read writes the same text again
        assert_eq!(StoreConfig::from_bytes(&bytes).unwrap().to_bytes(), bytes);
    }
}

#[test]
fn store_config_documents_are_written_back_as_the_same_value() {
    for source in [
        r#"{"storage":{"in_memory":{}},"dataset":{"previous_version":{"empty":{}},"inline_chunk_threshold_bytes":null}}"#,
        r#"{
            "dataset": {
                "inline_chunk_threshold_bytes": 128,
                "previous_version": {"structure_id": "000102030405060708090a0b0c0d0e0f"}
            },
            "storage": {"cached": {
                "backend": {"cached": {"backend": {"local_filesystem": {"root": "/tmp/test"}},
                                       "approx_max_memory_bytes": 5}},
                "approx_max_memory_bytes": 1000000
            }}
        }"#,
        r#"{"dataset":{"previous_version":{"snapshot_id":"s-1"},"inline_chunk_threshold_bytes":0},"storage":{"in_memory":{}}}"#,
    ] {
        let config = StoreConfig::from_bytes(source.as_bytes()).unwrap();
        let written: serde_json::Value = serde_json::from_slice(&config.to_bytes()).unwrap();
        let read: serde_json::Value = serde_json::from_str(source).unwrap();
        assert_eq!(written, read);
    }
    // an identifier in upper case is read, and written in lower case
    let upper = r#"{"storage":{"in_memory":{}},"dataset":{"previous_version":{"structure_id":"000102030405060708090A0B0C0D0E0F"},"inline_chunk_threshold_bytes":null}}"#;
    let config = StoreConfig::from_bytes(upper.as_bytes()).unwrap();
    assert_eq!(
        String::from_utf8(config.to_bytes()).unwrap(),
        upper.to_lowercase()
    );
    // a threshold that was left out is written as null
    let short = r#"{"storage":{"in_memory":{}},"dataset":{"previous_version":{"empty":{}}}}"#;
    let config = StoreConfig::from_bytes(short.as_bytes()).unwrap();
    assert_eq!(
        String::from_utf8(config.to_bytes()).unwrap(),
        r#"{"storage":{"in_memory":{}},"dataset":{"previous_version":{"empty":{}},"inline_chunk_threshold_bytes":null}}"#
    );
}

#[test]
fn store_config_text() {
    let config = StoreConfig {
        storage: StorageConfig::Cached {
            approx_max_memory_bytes: 1_000_000,
            backend: Box::new(StorageConfig::LocalFileSystem { root: "/tmp/test".into() }),
        },
        dataset: DatasetConfig {
            inline_chunk_threshold_bytes: Some(128),
            previous_version: VersionInfo::StructureId(ObjectId([
                0, 1, 2, 3, 4, 5, 6, 7, 8, 9, 10, 11, 12, 13, 14, 15,
            ])),
        },
    };
    assert_eq!(
        String::from_utf8(config.to_bytes()).unwrap(),
        r#"{"storage":{"cached":{"approx_max_memory_bytes":1000000,"backend":{"local_filesystem":{"root":"/tmp/test"}}}},"dataset":{"previous_version":{"structure_id":"000102030405060708090a0b0c0d0e0f"},"inline_chunk_threshold_bytes":128}}"#
    );
    let empty = StoreConfig {
        storage: StorageConfig::InMemory,
        dataset: DatasetConfig {
            previous_version: VersionInfo::Empty,
            inline_chunk_threshold_bytes: None,
        },
    };
    assert_eq!(
        String::from_utf8(empty.to_bytes()).unwrap(),
        r#"{"storage":{"in_memory":{}},"dataset":{"previous_version":{"empty":{}},"inline_chunk_threshold_bytes":null}}"#
    );
}

fn config_error(text: &str) -> DocumentError {
    StoreConfig::from_bytes(text.as_bytes()).unwrap_err()
}

#[test]
fn store_configs_that_are_refused() {
    assert!(matches!(config_error("{"), DocumentError::Syntax(_)));
    assert!(matches!(config_error(""), DocumentError::Syntax(_)));
    for text in [
        "{}",
        "[]",
        r#"{"storage":{"in_memory":{}}}"#,
        r#"{"dataset":{"previous_version":{"empty":{}}}}"#,
        r#"{"storage":{"on_the_moon":{}},"dataset":{"previous_version":{"empty":{}}}}"#,
        r#"{"storage":{"in_memory":{},"cached":{}},"dataset":{"previous_version":{"empty":{}}}}"#,
        r#"{"storage":{"in_memory":{"x":1}},"dataset":{"previous_version":{"empty":{}}}}"#,
        r#"{"storage":{"local_filesystem":{}},"dataset":{"previous_version":{"empty":{}}}}"#,
        r#"{"storage":{"local_filesystem":{"root":7}},"dataset":{"previous_version":{"empty":{}}}}"#,
        r#"{"storage":{"cached":{"approx_max_memory_bytes":-1,"backend":{"in_memory":{}}}},"dataset":{"previous_version":{"empty":{}}}}"#,
        r#"{"storage":{"cached":{"approx_max_memory_bytes":1}},"dataset":{"previous_version":{"empty":{}}}}"#,
        r#"{"storage":{"in_memory":{}},"dataset":{}}"#,
        r#"{"storage":{"in_memory":{}},"dataset":{"previous_version":{"structure_id":"00"}}}"#,
        r#"{"storage":{"in_memory":{}},"dataset":{"previous_version":{"structure_id":"000102030405060708090a0b0c0d0e0g"}}}"#,
        r#"{"storage":{"in_memory":{}},"dataset":{"previous_version":{"empty":{}},"inline_chunk_threshold_bytes":65536}}"#,
        r#"{"storage":{"in_memory":{}},"dataset":{"previous_version":{"empty":{}},"inline_chunk_threshold_bytes":"1"}}"#,
    ] {
        assert!(matches!(config_error(text), DocumentError::Format), "{}", text);
    }
}

#[test]
fn object_ids_in_hexadecimal() {
    let id = ObjectId([0, 1, 2, 3, 4, 5, 6, 7, 8, 9, 10, 11, 12, 13, 14, 255]);
    assert_eq!(id.to_hex(), "000102030405060708090a0b0c0d0eff");
    assert_eq!(ObjectId::from_hex("000102030405060708090a0b0c0d0eff"), Some(id.clone()));
    assert_eq!(ObjectId::from_hex("000102030405060708090A0B0C0D0EFF"), Some(id));
    assert_eq!(ObjectId::from_hex(""), None);
    assert_eq!(ObjectId::from_hex("000102030405060708090a0b0c0d0ef"), None);
    assert_eq!(ObjectId::from_hex("000102030405060708090a0b0c0d0efff"), None);
    assert_eq!(ObjectId::from_hex("0001020304050607 8090a0b0c0d0eff"), None);
    assert_eq!(ObjectId::from_hex("\u{e9}00102030405060708090a0b0c0d0eff"), None);
}

#[test]
fn json_documents_are_read_by_serde_json() {
    assert_eq!(json("null"), Json::Null);
    assert_eq!(json(" true "), Json::Bool(true));
    assert_eq!(json("0"), Json::PosInt(0));
    assert_eq!(json("18446744073709551615"), Json::PosInt(u64::MAX));
    assert_eq!(json("-1"), Json::NegInt(-1));
    assert_eq!(json("-9223372036854775808"), Json::NegInt(i64::MIN));
    assert_eq!(json("1.5"), Json::Real("1.5".to_string()));
    assert_eq!(json("1e2"), Json::Real("100.0".to_string()));
    assert_eq!(json(r#""a\né""#), Json::Text("a\n\u{e9}".to_string()));
    assert_eq!(
        json(r#"[1, "x", [], {}]"#),
        Json::Array(vec![
            Json::PosInt(1),
            Json::Text("x".to_string()),
            Json::Array(vec![]),
            Json::Object(vec![]),
        ])
    );
    // the fields of an object come in the order of their names
    assert_eq!(
        json(r#"{"b": 1, "a": {"z": null, "y": false}}"#),
        Json::Object(vec![
            (
                "a".to_string(),
                Json::Object(vec![
                    ("y".to_string(), Json::Bool(false)),
                    ("z".to_string(), Json::Null),
                ])
            ),
            ("b".to_string(), Json::PosInt(1)),
        ])
    );
    assert!(Json::parse(b"").is_err());
    assert!(Json::parse(b"{").is_err());
    assert!(Json::parse(b"[1,]").is_err());
    assert!(Json::parse(b"nul").is_err());
    assert!(Json::parse(b"1 2").is_err());
    assert!(Json::parse(&[0x22, 0xff, 0x22]).is_err());
}

#[test]
fn json_text_is_compact_and_keeps_the_order_of_fields() {
    let doc = Json::Object(vec![
        ("zeta".to_string(), Json::Array(vec![Json::Null, Json::Bool(true), Json::Bool(false)])),
        ("alpha".to_string(), Json::NegInt(-42)),
        ("n".to_string(), Json::NegInt(7)),
        ("min".to_string(), Json::NegInt(i64::MIN)),
        ("max".to_string(), Json::PosInt(u64::MAX)),
        ("real".to_string(), Json::Real("2.5e-3".to_string())),
        ("empty".to_string(), Json::Object(vec![])),
        ("none".to_string(), Json::Array(vec![])),
    ]);
    assert_eq!(
        text(&doc),
        r#"{"zeta":[null,true,false],"alpha":-42,"n":7,"min":-9223372036854775808,"max":18446744073709551615,"real":2.5e-3,"empty":{},"none":[]}"#
    );
}

#[test]
fn strings_are_quoted_as_serde_json_quotes_them() {
    for s in ["", "plain", "a\"b", "back\\slash", "line\nfeed\ttab", "\u{1}\u{e9}\u{1f600}"] {
        let expected = serde_json::to_vec(s).unwrap();
        assert_eq!(Json::Text(s.to_string()).to_bytes(), expected);
        assert_ne!(Json::Text(s.to_string()).to_bytes(), s.as_bytes().to_vec());
    }
    assert_eq!(text(&Json::Text("a\"b\n".to_string())), r#""a\"b\n""#);
    // names of fields are quoted in the same way
    assert_eq!(
        text(&Json::Object(vec![("a\"b".to_string(), Json::Null)])),
        r#"{"a\"b":null}"#
    );
}

fn escaped(b: u8) -> Vec<u8> {
    match b {
        b'"' => b"\\\"".to_vec(),
        b'\\' => b"\\\\".to_vec(),
        0x08 => b"\\b".to_vec(),
        0x09 => b"\\t".to_vec(),
        0x0a => b"\\n".to_vec(),
        0x0c => b"\\f".to_vec(),
        0x0d => b"\\r".to_vec(),
        b if b < 0x20 => format!("\\u00{:02x}", b).into_bytes(),
        b => vec![b],
    }
}

#[test]
fn strings_are_escaped_byte_by_byte() {
    for b in 0u8..=0x7f {
        let s = String::from_utf8(vec![b'a', b, b'z']).unwrap();
        let mut expected = vec![b'"', b'a'];
        expected.extend(escaped(b));
        expected.extend([b'z', b'"']);
        assert_eq!(Json::Text(s).to_bytes(), expected, "byte {:#x}", b);
    }
    assert_eq!(Json::Text("\u{0}".to_string()).to_bytes(), b"\"\\u0000\"".to_vec());
    assert_eq!(Json::Text("\u{1f}".to_string()).to_bytes(), b"\"\\u001f\"".to_vec());
    assert_eq!(Json::Text("\u{7f}".to_string()).to_bytes(), vec![b'"', 0x7f, b'"']);
    assert_eq!(Json::Text("/".to_string()).to_bytes(), b"\"/\"".to_vec());
    // what is not ASCII stands as its UTF-8 bytes
    assert_eq!(
        Json::Text("\u{e9}\u{2028}\u{1f600}".to_string()).to_bytes(),
        "\"\u{e9}\u{2028}\u{1f600}\"".as_bytes().to_vec()
    );
    assert_eq!(Json::Text(String::new()).to_bytes(), b"\"\"".to_vec());
}

#[test]
fn json_text_reads_back() {
    for source in [
        r#"{"a":[1,-2,3.5,"x",null,true,{"b":{}}],"c":"é\"","d":1e300}"#,
        r#"[]"#,
        r#""text""#,
        r#"-0.0"#,
    ] {
        let doc = json(source);
        assert_eq!(Json::parse(&doc.to_bytes()).unwrap(), doc);
        let by_serde: serde_json::Value = serde_json::from_str(source).unwrap();
        assert_eq!(doc.to_bytes(), serde_json::to_vec(&by_serde).unwrap());
    }
}

#[test]
fn field_look_up_takes_the_first_of_a_name() {
    let doc = Json::Object(vec![
        ("a".to_string(), Json::PosInt(1)),
        ("b".to_string(), Json::PosInt(2)),
        ("a".to_string(), Json::PosInt(3)),
    ]);
    assert_eq!(doc.get("a"), Some(&Json::PosInt(1)));
    assert_eq!(doc.get("b"), Some(&Json::PosInt(2)));
    assert_eq!(doc.get("c"), None);
    assert_eq!(Json::Array(vec![]).get("a"), None);
    assert_eq!(Json::Null.get("a"), None);
}

const ARRAY: &str = r#"{"zarr_format":3,"node_type":"array","attributes":{"foo":42},"shape":[2,2,2],"data_type":"int32","chunk_grid":{"name":"regular","configuration":{"chunk_shape":[1,1,1]}},"chunk_key_encoding":{"name":"default","configuration":{"separator":"/"}},"fill_value":0,"codecs":[{"name":"mycodec","configuration":{"foo":42}}],"storage_transformers":[{"name":"mytransformer","configuration":{"bar":43}}],"dimension_names":["x","y","t"]}"#;

fn sample_array() -> ZarrArrayMetadata {
    ZarrArrayMetadata {
        shape: vec![2, 2, 2],
        data_type: DataType::Int32,
        chunk_shape: ChunkShape::new(vec![1, 1, 1]).unwrap(),
        chunk_key_encoding: ChunkKeyEncoding::Slash,
        fill_value: FillValue::from_data_type_and_json(&DataType::Int32, &Json::PosInt(0)).unwrap(),
        codecs: vec![Descriptor {
            name: "mycodec".to_string(),
            configuration: Some(json(r#"{"foo":42}"#)),
        }],
        storage_transformers: Some(vec![Descriptor {
            name: "mytransformer".to_string(),
            configuration: Some(json(r#"{"bar":43}"#)),
        }]),
        dimension_names: Some(vec![
            Some("x".to_string()),
            Some("y".to_string()),
            Some("t".to_string()),
        ]),
    }
}

#[test]
fn array_metadata_is_read() {
    let metadata = ArrayMetadata::from_bytes(ARRAY.as_bytes()).unwrap();
    assert_eq!(metadata.zarr_format, 3);
    assert_eq!(metadata.node_type, "array");
    assert_eq!(metadata.attributes, UserAttributes::new(json(r#"{"foo":42}"#)));
    assert_eq!(metadata.zarr_metadata, sample_array());
}

#[test]
fn array_metadata_is_written() {
    let metadata =
        ArrayMetadata::new(UserAttributes::new(json(r#"{"foo":42}"#)), sample_array());
    assert_eq!(String::from_utf8(metadata.to_bytes()).unwrap(), ARRAY);
    assert_eq!(metadata.to_json(), {
        // in the order of the fields, which is not that of their names
        let Json::Object(mut fields) = json(ARRAY) else { panic!("no object") };
        let order = [
            "zarr_format",
            "node_type",
            "attributes",
            "shape",
            "data_type",
            "chunk_grid",
            "chunk_key_encoding",
            "fill_value",
            "codecs",
            "storage_transformers",
            "dimension_names",
        ];
        fields.sort_by_key(|(name, _)| order.iter().position(|o| o == name).unwrap());
        let mut fields: Vec<(String, Json)> = fields;
        for (name, value) in fields.iter_mut() {
            if name == "chunk_grid" || name == "chunk_key_encoding" {
                let Json::Object(inner) = value else { panic!("no object") };
                inner.reverse();
            }
            if name == "codecs" || name == "storage_transformers" {
                let Json::Array(items) = value else { panic!("no array") };
                for item in items.iter_mut() {
                    let Json::Object(inner) = item else { panic!("no object") };
                    inner.reverse();
                }
            }
        }
        Json::Object(fields)
    });
}

#[test]
fn array_metadata_round_trip() {
    let fills = vec![
        (DataType::Bool, "true"),
        (DataType::Int8, "-128"),
        (DataType::UInt8, "255"),
        (DataType::Int64, "-9223372036854775808"),
        (DataType::UInt64, "18446744073709551615"),
        (DataType::Float16, "1.5"),
        (DataType::Float32, "\"NaN\""),
        (DataType::Float64, "\"-Infinity\""),
        (DataType::Float64, "3"),
        (DataType::Complex64, "[1.5,\"NaN\"]"),
        (DataType::Complex128, "[0,-1]"),
    ];
    for (data_type, fill) in fills {
        let mut zarr_metadata = sample_array();
        zarr_metadata.data_type = data_type;
        zarr_metadata.fill_value =
            FillValue::from_data_type_and_json(&data_type, &json(fill)).unwrap();
        zarr_metadata.storage_transformers = None;
        zarr_metadata.dimension_names = Some(vec![None, Some("y".to_string()), None]);
        zarr_metadata.codecs.push(Descriptor { name: "bare".to_string(), configuration: None });
        for attributes in [None, UserAttributes::new(json(r#"{"b":[1,{"c":null}],"a":"x"}"#))] {
            let metadata = ArrayMetadata::new(attributes, zarr_metadata.clone());
            let bytes = metadata.to_bytes();
            assert_eq!(ArrayMetadata::from_bytes(&bytes).unwrap(), metadata);
            assert_eq!(ArrayMetadata::from_json(&metadata.to_json()).unwrap(), metadata);
        }
    }
}

#[test]
fn array_metadata_is_read_whatever_the_order_of_its_fields() {
    let shuffled = r#"{"dimension_names":null,"codecs":[],"fill_value":0,"extra":[1,2],"chunk_key_encoding":{"configuration":{"separator":"/"},"name":"default"},"chunk_grid":{"configuration":{"chunk_shape":[3],"more":1},"name":"regular"},"data_type":"uint16","shape":[7],"node_type":"array","zarr_format":3}"#;
    let metadata = ArrayMetadata::from_bytes(shuffled.as_bytes()).unwrap();
    assert_eq!(metadata.attributes, None);
    assert_eq!(metadata.zarr_metadata.shape, vec![7]);
    assert_eq!(metadata.zarr_metadata.data_type, DataType::UInt16);
    assert_eq!(metadata.zarr_metadata.chunk_shape.dims(), &vec![3]);
    assert_eq!(metadata.zarr_metadata.codecs, vec![]);
    assert_eq!(metadata.zarr_metadata.storage_transformers, None);
    assert_eq!(metadata.zarr_metadata.dimension_names, None);
    assert_eq!(
        String::from_utf8(metadata.to_bytes()).unwrap(),
        r#"{"zarr_format":3,"node_type":"array","attributes":null,"shape":[7],"data_type":"uint16","chunk_grid":{"name":"regular","configuration":{"chunk_shape":[3]}},"chunk_key_encoding":{"name":"default","configuration":{"separator":"/"}},"fill_value":0,"codecs":[],"storage_transformers":null,"dimension_names":null}"#
    );
}

fn array_with(from: &str, to: &str) -> Result<ArrayMetadata, DocumentError> {
    assert!(ARRAY.contains(from));
    ArrayMetadata::from_bytes(ARRAY.replace(from, to).as_bytes())
}

#[test]
fn array_metadata_that_is_refused() {
    assert!(matches!(ArrayMetadata::from_bytes(b"{"), Err(DocumentError::Syntax(_))));
    for (from, to) in [
        (r#""zarr_format":3,"#, ""),
        (r#""zarr_format":3"#, r#""zarr_format":256"#),
        (r#""zarr_format":3"#, r#""zarr_format":"3""#),
        (r#""node_type":"array","#, ""),
        (r#""attributes":{"foo":42}"#, r#""attributes":[1]"#),
        (r#""attributes":{"foo":42}"#, r#""attributes":"x""#),
        (r#""shape":[2,2,2],"#, ""),
        (r#""shape":[2,2,2]"#, r#""shape":[2,-2,2]"#),
        (r#""shape":[2,2,2]"#, r#""shape":[2,2.5,2]"#),
        (r#""shape":[2,2,2]"#, r#""shape":2"#),
        (r#""data_type":"int32""#, r#""data_type":"int33""#),
        (r#""data_type":"int32""#, r#""data_type":32"#),
        (r#""name":"regular""#, r#""name":"irregular""#),
        (r#""chunk_shape":[1,1,1]"#, r#""chunk_shape":[1,0,1]"#),
        (r#""chunk_shape":[1,1,1]"#, r#""chunk_shape":[1,"1",1]"#),
        (r#""chunk_shape":[1,1,1]"#, r#""chunk_shape":1"#),
        (r#""chunk_shape":[1,1,1]"#, r#""chunks":[1,1,1]"#),
        (r#""name":"default""#, r#""name":"v2""#),
        (r#""separator":"/""#, r#""separator":".""#),
        (r#""separator":"/""#, r#""sep":"/""#),
        (r#""separator":"/""#, r#""separator":47"#),
        (r#""fill_value":0,"#, ""),
        (r#""fill_value":0"#, r#""fill_value":2147483648"#),
        (r#""fill_value":0"#, r#""fill_value":-2147483649"#),
        (r#""fill_value":0"#, r#""fill_value":0.5"#),
        (r#""fill_value":0"#, r#""fill_value":"NaN""#),
        (r#""fill_value":0"#, r#""fill_value":null"#),
        (r#""codecs":[{"name":"mycodec","configuration":{"foo":42}}],"#, ""),
        (r#""name":"mycodec","#, ""),
        (r#""name":"mycodec""#, r#""name":1"#),
        (r#""name":"mytransformer""#, r#""name":null"#),
        (r#""dimension_names":["x","y","t"]"#, r#""dimension_names":["x",1,"t"]"#),
        (r#""dimension_names":["x","y","t"]"#, r#""dimension_names":"xyt""#),
    ] {
        assert!(matches!(array_with(from, to), Err(DocumentError::Format)), "{} -> {}", from, to);
    }
    // these can be left out or null
    for (from, to) in [
        (r#""attributes":{"foo":42},"#, ""),
        (r#""attributes":{"foo":42}"#, r#""attributes":null"#),
        (r#","dimension_names":["x","y","t"]"#, ""),
        (r#""dimension_names":["x","y","t"]"#, r#""dimension_names":null"#),
        (r#""dimension_names":["x","y","t"]"#, r#""dimension_names":["x",null,"t"]"#),
        (r#""configuration":{"bar":43}"#, r#""configuration":null"#),
        (r#","configuration":{"bar":43}"#, ""),
        (r#""fill_value":0"#, r#""fill_value":-2147483648"#),
        (r#""fill_value":0"#, r#""fill_value":2147483647"#),
        (r#""node_type":"array""#, r#""node_type":"anything""#),
    ] {
        assert!(array_with(from, to).is_ok(), "{} -> {}", from, to);
    }
}

#[test]
fn group_metadata_is_read_and_written() {
    let group = GroupMetadata::from_bytes(br#"{"zarr_format":3, "node_type":"group"}"#).unwrap();
    assert_eq!(group, GroupMetadata::new(None));
    assert_eq!(
        String::from_utf8(group.to_bytes()).unwrap(),
        r#"{"zarr_format":3,"node_type":"group","attributes":null}"#
    );
    let with = GroupMetadata::from_bytes(
        br#"{"zarr_format":3, "node_type":"group", "attributes": {"spam":"ham", "eggs":42}}"#,
    )
    .unwrap();
    assert_eq!(
        String::from_utf8(with.to_bytes()).unwrap(),
        r#"{"zarr_format":3,"node_type":"group","attributes":{"eggs":42,"spam":"ham"}}"#
    );
    assert_eq!(GroupMetadata::from_bytes(&with.to_bytes()).unwrap(), with);
    // what calls itself an array is no group metadata
    assert!(matches!(GroupMetadata::from_bytes(ARRAY.as_bytes()), Err(DocumentError::Format)));
    assert!(matches!(
        GroupMetadata::from_bytes(br#"{"zarr_format":3,"node_type":"array"}"#),
        Err(DocumentError::Format)
    ));
    // other fields are passed over, and any other node type is taken
    let other = GroupMetadata::from_bytes(
        br#"{"shape":[1],"zarr_format":7,"node_type":"Array","extra":null}"#,
    )
    .unwrap();
    assert_eq!(other.zarr_format, 7);
    assert_eq!(other.node_type, "Array");
    assert_eq!(other.attributes, None);
    assert!(matches!(GroupMetadata::from_bytes(b"3"), Err(DocumentError::Format)));
    assert!(matches!(
        GroupMetadata::from_bytes(br#"{"zarr_format":3}"#),
        Err(DocumentError::Format)
    ));
    assert!(matches!(GroupMetadata::from_bytes(b"{"), Err(DocumentError::Syntax(_))));
}

fn envelope(name: &str, configuration: &str) -> NameConfigSerializer {
    NameConfigSerializer { name: name.to_string(), configuration: json(configuration) }
}

#[test]
fn chunk_shape_envelope() {
    let shape = ChunkShape::new(vec![1, 20, 300]).unwrap();
    let written = NameConfigSerializer::from(shape.clone());
    assert_eq!(written, envelope("regular", r#"{"chunk_shape":[1,20,300]}"#));
    assert_eq!(
        String::from_utf8(written.to_json().to_bytes()).unwrap(),
        r#"{"name":"regular","configuration":{"chunk_shape":[1,20,300]}}"#
    );
    assert_eq!(ChunkShape::try_from(written), Ok(shape));
    assert_eq!(
        ChunkShape::try_from(envelope("regular", r#"{"chunk_shape":[]}"#)),
        Ok(ChunkShape::new(vec![]).unwrap())
    );
    for (name, configuration) in [
        ("default", r#"{"chunk_shape":[1]}"#),
        ("regular", r#"[1]"#),
        ("regular", r#"{}"#),
        ("regular", r#"{"chunk_shape":[0]}"#),
        ("regular", r#"{"chunk_shape":[1,-1]}"#),
        ("regular", r#"{"chunk_shape":[1.5]}"#),
        ("regular", r#"{"chunk_shape":{"0":1}}"#),
    ] {
        assert_eq!(
            ChunkShape::try_from(envelope(name, configuration)),
            Err("cannot parse ChunkShape")
        );
    }
    assert!(ChunkShape::new(vec![1, 0]).is_none());
}

#[test]
fn chunk_key_encoding_envelope() {
    let written = NameConfigSerializer::from(ChunkKeyEncoding::Slash);
    assert_eq!(written, envelope("default", r#"{"separator":"/"}"#));
    assert_eq!(ChunkKeyEncoding::try_from(written), Ok(ChunkKeyEncoding::Slash));
    // whatever the encoding, the separator written is the slash
    assert_eq!(
        NameConfigSerializer::from(ChunkKeyEncoding::Dot),
        envelope("default", r#"{"separator":"/"}"#)
    );
    for (name, configuration) in [
        ("regular", r#"{"separator":"/"}"#),
        ("default", r#"{"separator":"."}"#),
        ("default", r#"{"separator":1}"#),
        ("default", r#"{}"#),
        ("default", r#""/""#),
    ] {
        assert_eq!(
            ChunkKeyEncoding::try_from(envelope(name, configuration)),
            Err("cannot parse ChunkKeyEncoding")
        );
    }
}

#[test]
fn fill_values_suit_their_data_type() {
    let cases = [
        (DataType::Bool, "true", true),
        (DataType::Bool, "0", false),
        (DataType::Int8, "127", true),
        (DataType::Int8, "128", false),
        (DataType::Int8, "-128", true),
        (DataType::Int8, "-129", false),
        (DataType::Int16, "32767", true),
        (DataType::Int16, "32768", false),
        (DataType::Int16, "-32769", false),
        (DataType::Int32, "1.0", false),
        (DataType::Int64, "9223372036854775807", true),
        (DataType::Int64, "9223372036854775808", false),
        (DataType::UInt8, "255", true),
        (DataType::UInt8, "256", false),
        (DataType::UInt8, "-1", false),
        (DataType::UInt16, "65535", true),
        (DataType::UInt16, "65536", false),
        (DataType::UInt32, "4294967295", true),
        (DataType::UInt32, "4294967296", false),
        (DataType::UInt64, "18446744073709551615", true),
        (DataType::UInt64, "-1", false),
        (DataType::Float16, "1", true),
        (DataType::Float32, "-1", true),
        (DataType::Float64, "1e-7", true),
        (DataType::Float64, "\"NaN\"", true),
        (DataType::Float64, "\"Infinity\"", true),
        (DataType::Float64, "\"-Infinity\"", true),
        (DataType::Float64, "\"nan\"", false),
        (DataType::Float64, "null", false),
        (DataType::Float64, "[1,2]", false),
        (DataType::Complex64, "[1,2]", true),
        (DataType::Complex128, "[1.5,\"Infinity\"]", true),
        (DataType::Complex64, "[1]", false),
        (DataType::Complex64, "[1,2,3]", false),
        (DataType::Complex64, "[1,true]", false),
        (DataType::Complex64, "1", false),
    ];
    for (data_type, value, fits) in cases {
        let value = json(value);
        assert_eq!(check_fits(data_type, &value), fits, "{:?} {:?}", data_type, value);
        let fill = FillValue::from_data_type_and_json(&data_type, &value);
        assert_eq!(fill.is_some(), fits);
        if let Some(fill) = fill {
            assert_eq!(fill.data_type(), data_type);
            assert_eq!(fill.value(), &value);
        }
    }
    // an integer that is not below zero fits also where it is held as a signed one
    assert!(check_fits(DataType::UInt8, &Json::NegInt(5)));
    assert!(!check_fits(DataType::UInt8, &Json::NegInt(256)));
}

#[test]
fn data_types_have_names() {
    let all = [
        (DataType::Bool, "bool"),
        (DataType::Int8, "int8"),
        (DataType::Int16, "int16"),
        (DataType::Int32, "int32"),
        (DataType::Int64, "int64"),
        (DataType::UInt8, "uint8"),
        (DataType::UInt16, "uint16"),
        (DataType::UInt32, "uint32"),
        (DataType::UInt64, "uint64"),
        (DataType::Float16, "float16"),
        (DataType::Float32, "float32"),
        (DataType::Float64, "float64"),
        (DataType::Complex64, "complex64"),
        (DataType::Complex128, "complex128"),
    ];
    for (data_type, name) in all {
        assert_eq!(data_type.name(), name);
        assert_eq!(DataType::from_name(name), Some(data_type));
    }
    assert_eq!(DataType::from_name("int"), None);
    assert_eq!(DataType::from_name("Int8"), None);
    assert_eq!(DataType::from_name(""), None);
}

#[test]
fn the_document_form_carries_the_fill_value_as_json() {
    let form = ZarrArrayMetadataSerialzer::from(sample_array());
    assert_eq!(form.fill_value, Json::PosInt(0));
    assert_eq!(ZarrArrayMetadata::try_from(form.clone()).unwrap(), sample_array());
    let mut bad = form;
    bad.fill_value = Json::Text("x".to_string());
    assert!(matches!(ZarrArrayMetadata::try_from(bad), Err(DocumentError::Format)));
}

#[test]
fn attributes_are_objects() {
    assert!(UserAttributes::new(json("{}")).is_some());
    assert!(UserAttributes::new(json("[]")).is_none());
    assert!(UserAttributes::new(json("null")).is_none());
    assert_eq!(UserAttributes::new(json(r#"{"a":1}"#)).unwrap().as_json(), &json(r#"{"a":1}"#));
}
