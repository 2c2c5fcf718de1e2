//! Node metadata: the records of groups and arrays, and the JSON documents
//! that they are written as and read from.

use vstd::prelude::*;

use crate::data_type::{fits, DataType, FillValue, FillValueView};
use crate::envelope::{
    all_positive, chunk_key_encoding_envelope, chunk_key_encoding_of, chunk_shape_envelope,
    chunk_shape_of, envelope_json, envelope_of, read_unsigned_items, unsigned_array,
    unsigned_items, write_unsigned_array, ChunkKeyEncoding, ChunkShape, NameConfigSerializer,
};
use crate::error::DocumentError;
use crate::json::{
    distinct_names, field_views, item_views, json_document, json_text, lemma_lookup_index,
    lemma_lookup_reordered, Json, JsonView,
};
use crate::text::str_eq;

verus! {

/// The attributes that a user attached to a node: a JSON object, carried
/// through as it is.
#[derive(Debug, PartialEq, Eq)]
pub struct UserAttributes {
    parsed: Json,
}

impl View for UserAttributes {
    type V = JsonView;

    closed spec fn view(&self) -> JsonView {
        self.parsed@
    }
}

impl Clone for UserAttributes {
    fn clone(&self) -> (r: UserAttributes)
        ensures
            r@ == self@,
    {
        proof {
            use_type_invariant(self);
        }
        UserAttributes { parsed: self.parsed.clone() }
    }
}

impl UserAttributes {
    #[verifier::type_invariant]
    spec fn object(&self) -> bool {
        self.parsed@ is Object
    }

    /// The attributes that the JSON value `parsed` holds, if it is an object.
    pub fn new(parsed: Json) -> (r: Option<UserAttributes>)
        ensures
            match r {
                Some(attributes) => parsed@ is Object && attributes@ == parsed@,
                None => !(parsed@ is Object),
            },
    {
        match parsed {
            Json::Object(_) => Some(UserAttributes { parsed }),
            _ => None,
        }
    }

    /// The attributes as JSON.
    pub fn as_json(&self) -> (r: &Json)
        ensures
            r@ == self@,
            self@ is Object,
    {
        proof {
            use_type_invariant(self);
        }
        &self.parsed
    }
}

/// A filter on the way of an array's data: a name, and a configuration that
/// the store does not look into.
#[derive(Debug, PartialEq, Eq)]
pub struct Descriptor {
    pub name: String,
    pub configuration: Option<Json>,
}

/// A codec of an array.
pub type Codec = Descriptor;

/// A storage transformer of an array.
pub type StorageTransformer = Descriptor;

/// A descriptor as a mathematical value.
pub struct DescriptorView {
    pub name: Seq<char>,
    pub configuration: Option<JsonView>,
}

impl View for Descriptor {
    type V = DescriptorView;

    open spec fn view(&self) -> DescriptorView {
        DescriptorView {
            name: self.name@,
            configuration: match self.configuration {
                Some(c) => Some(c@),
                None => None,
            },
        }
    }
}

impl Clone for Descriptor {
    fn clone(&self) -> (r: Descriptor)
        ensures
            r@ == self@,
    {
        Descriptor {
            name: self.name.clone(),
            configuration: match &self.configuration {
                Some(c) => Some(c.clone()),
                None => None,
            },
        }
    }
}

/// The views of descriptors.
pub open spec fn descriptor_views(items: Seq<Descriptor>) -> Seq<DescriptorView> {
    items.map_values(|d: Descriptor| d@)
}

/// The views of optional names.
pub open spec fn name_views(names: Seq<Option<String>>) -> Seq<Option<Seq<char>>> {
    names.map_values(
        |n: Option<String>|
            match n {
                Some(text) => Some(text@),
                None => None,
            },
    )
}

/// The metadata of an array as the dataset keeps it.
#[derive(Debug, Clone, PartialEq, Eq)]
pub struct ZarrArrayMetadata {
    pub shape: Vec<u64>,
    pub data_type: DataType,
    pub chunk_shape: ChunkShape,
    pub chunk_key_encoding: ChunkKeyEncoding,
    pub fill_value: FillValue,
    pub codecs: Vec<Codec>,
    pub storage_transformers: Option<Vec<StorageTransformer>>,
    /// One name per dimension; a dimension may have none.
    pub dimension_names: Option<Vec<Option<String>>>,
}

/// Array metadata as a mathematical value.
pub struct ZarrArrayMetadataView {
    pub shape: Seq<u64>,
    pub data_type: DataType,
    pub chunk_shape: Seq<u64>,
    pub chunk_key_encoding: ChunkKeyEncoding,
    pub fill_value: FillValueView,
    pub codecs: Seq<DescriptorView>,
    pub storage_transformers: Option<Seq<DescriptorView>>,
    pub dimension_names: Option<Seq<Option<Seq<char>>>>,
}

impl View for ZarrArrayMetadata {
    type V = ZarrArrayMetadataView;

    open spec fn view(&self) -> ZarrArrayMetadataView {
        ZarrArrayMetadataView {
            shape: self.shape@,
            data_type: self.data_type,
            chunk_shape: self.chunk_shape@,
            chunk_key_encoding: self.chunk_key_encoding,
            fill_value: self.fill_value@,
            codecs: descriptor_views(self.codecs@),
            storage_transformers: match self.storage_transformers {
                Some(items) => Some(descriptor_views(items@)),
                None => None,
            },
            dimension_names: match self.dimension_names {
                Some(names) => Some(name_views(names@)),
                None => None,
            },
        }
    }
}

/// Array metadata in the form in which it stands in a metadata document:
/// the chunk shape and the chunk key encoding to be put in envelopes, the
/// fill value as the JSON that the document holds.
#[derive(Debug, Clone, PartialEq, Eq)]
pub struct ZarrArrayMetadataSerialzer {
    pub shape: Vec<u64>,
    pub data_type: DataType,
    pub chunk_shape: ChunkShape,
    pub chunk_key_encoding: ChunkKeyEncoding,
    pub fill_value: Json,
    pub codecs: Vec<Codec>,
    pub storage_transformers: Option<Vec<StorageTransformer>>,
    pub dimension_names: Option<Vec<Option<String>>>,
}

/// The document form of array metadata as a mathematical value.
pub struct SerializerView {
    pub shape: Seq<u64>,
    pub data_type: DataType,
    pub chunk_shape: Seq<u64>,
    pub chunk_key_encoding: ChunkKeyEncoding,
    pub fill_value: JsonView,
    pub codecs: Seq<DescriptorView>,
    pub storage_transformers: Option<Seq<DescriptorView>>,
    pub dimension_names: Option<Seq<Option<Seq<char>>>>,
}

impl View for ZarrArrayMetadataSerialzer {
    type V = SerializerView;

    open spec fn view(&self) -> SerializerView {
        SerializerView {
            shape: self.shape@,
            data_type: self.data_type,
            chunk_shape: self.chunk_shape@,
            chunk_key_encoding: self.chunk_key_encoding,
            fill_value: self.fill_value@,
            codecs: descriptor_views(self.codecs@),
            storage_transformers: match self.storage_transformers {
                Some(items) => Some(descriptor_views(items@)),
                None => None,
            },
            dimension_names: match self.dimension_names {
                Some(names) => Some(name_views(names@)),
                None => None,
            },
        }
    }
}

/// The array metadata that a document form stands for: the same fields, with
/// the fill value read under the data type. There is none where the fill
/// value does not suit the data type.
pub open spec fn typed(s: SerializerView) -> Option<ZarrArrayMetadataView> {
    if fits(s.data_type, s.fill_value) {
        Some(
            ZarrArrayMetadataView {
                shape: s.shape,
                data_type: s.data_type,
                chunk_shape: s.chunk_shape,
                chunk_key_encoding: s.chunk_key_encoding,
                fill_value: FillValueView { data_type: s.data_type, value: s.fill_value },
                codecs: s.codecs,
                storage_transformers: s.storage_transformers,
                dimension_names: s.dimension_names,
            },
        )
    } else {
        None
    }
}

/// The document form of array metadata: the same fields, with the fill value
/// as JSON.
pub open spec fn untyped(m: ZarrArrayMetadataView) -> SerializerView {
    SerializerView {
        shape: m.shape,
        data_type: m.data_type,
        chunk_shape: m.chunk_shape,
        chunk_key_encoding: m.chunk_key_encoding,
        fill_value: m.fill_value.value,
        codecs: m.codecs,
        storage_transformers: m.storage_transformers,
        dimension_names: m.dimension_names,
    }
}

impl TryFrom<ZarrArrayMetadataSerialzer> for ZarrArrayMetadata {
    type Error = DocumentError;

    /// Reads the fill value under the data type.
    fn try_from(value: ZarrArrayMetadataSerialzer) -> (r: Result<ZarrArrayMetadata, DocumentError>)
        ensures
            match r {
                Ok(m) => typed(value@) == Some(m@),
                Err(e) => typed(value@) is None && e is Format,
            },
    {
        let ZarrArrayMetadataSerialzer {
            shape,
            data_type,
            chunk_shape,
            chunk_key_encoding,
            fill_value,
            codecs,
            storage_transformers,
            dimension_names,
        } = value;
        match FillValue::from_data_type_and_json(&data_type, &fill_value) {
            Some(fill_value) => Ok(
                ZarrArrayMetadata {
                    fill_value,
                    shape,
                    data_type,
                    chunk_shape,
                    chunk_key_encoding,
                    codecs,
                    storage_transformers,
                    dimension_names,
                },
            ),
            None => Err(DocumentError::Format),
        }
    }
}

impl vstd::std_specs::convert::TryFromSpecImpl<ZarrArrayMetadataSerialzer> for ZarrArrayMetadata {
    open spec fn obeys_try_from_spec() -> bool {
        false
    }

    open spec fn try_from_spec(v: ZarrArrayMetadataSerialzer) -> Result<
        ZarrArrayMetadata,
        DocumentError,
    > {
        arbitrary()
    }
}

impl From<ZarrArrayMetadata> for ZarrArrayMetadataSerialzer {
    /// Writes the fill value as JSON.
    fn from(value: ZarrArrayMetadata) -> (r: ZarrArrayMetadataSerialzer)
        ensures
            r@ == untyped(value@),
    {
        let ZarrArrayMetadata {
            shape,
            data_type,
            chunk_shape,
            chunk_key_encoding,
            fill_value,
            codecs,
            storage_transformers,
            dimension_names,
        } = value;
        let fill_value = fill_value.value().clone();
        ZarrArrayMetadataSerialzer {
            shape,
            data_type,
            chunk_shape,
            chunk_key_encoding,
            codecs,
            storage_transformers,
            dimension_names,
            fill_value,
        }
    }
}

impl vstd::std_specs::convert::FromSpecImpl<ZarrArrayMetadata> for ZarrArrayMetadataSerialzer {
    open spec fn obeys_from_spec() -> bool {
        false
    }

    open spec fn from_spec(v: ZarrArrayMetadata) -> ZarrArrayMetadataSerialzer {
        arbitrary()
    }
}

/// The value of a field that may be left out: that of the field, where the
/// document has it and it is not `null`.
pub open spec fn optional_field(doc: JsonView, name: Seq<char>) -> Option<JsonView> {
    match doc.field(name) {
        Some(JsonView::Null) => None,
        other => other,
    }
}

/// The JSON value of a field that may be left out: `null` where it is.
pub open spec fn optional_json(value: Option<JsonView>) -> JsonView {
    match value {
        Some(v) => v,
        None => JsonView::Null,
    }
}

/// The descriptor that a JSON value holds: an object with a text `name`; its
/// `configuration` may be left out.
pub open spec fn descriptor_of(v: JsonView) -> Option<DescriptorView> {
    match v.field("name"@) {
        Some(JsonView::Text(name)) => Some(
            DescriptorView { name, configuration: optional_field(v, "configuration"@) },
        ),
        _ => None,
    }
}

/// The JSON object of a descriptor: `name`, then `configuration`.
pub open spec fn descriptor_json(d: DescriptorView) -> JsonView {
    JsonView::Object(
        seq![
            ("name"@, JsonView::Text(d.name)),
            ("configuration"@, optional_json(d.configuration)),
        ],
    )
}

/// The descriptors that a JSON value holds, if it is an array of them.
pub open spec fn descriptors_of(v: JsonView) -> Option<Seq<DescriptorView>> {
    match v {
        JsonView::Array(items) => if forall|i: int|
            0 <= i < items.len() ==> descriptor_of(#[trigger] items[i]) is Some {
            Some(Seq::new(items.len(), |i: int| descriptor_of(items[i])->0))
        } else {
            None
        },
        _ => None,
    }
}

/// The JSON array of descriptors.
pub open spec fn descriptors_json(items: Seq<DescriptorView>) -> JsonView {
    JsonView::Array(Seq::new(items.len(), |i: int| descriptor_json(items[i])))
}

/// The name of a dimension that a JSON value holds: a text, or `null` for a
/// dimension without a name.
pub open spec fn dimension_name_of(v: JsonView) -> Option<Option<Seq<char>>> {
    match v {
        JsonView::Text(name) => Some(Some(name)),
        JsonView::Null => Some(None),
        _ => None,
    }
}

/// The JSON value of the name of a dimension.
pub open spec fn dimension_name_json(name: Option<Seq<char>>) -> JsonView {
    match name {
        Some(text) => JsonView::Text(text),
        None => JsonView::Null,
    }
}

/// The dimension names that a JSON value holds, if it is an array of them.
pub open spec fn dimension_names_of(v: JsonView) -> Option<Seq<Option<Seq<char>>>> {
    match v {
        JsonView::Array(items) => if forall|i: int|
            0 <= i < items.len() ==> dimension_name_of(#[trigger] items[i]) is Some {
            Some(Seq::new(items.len(), |i: int| dimension_name_of(items[i])->0))
        } else {
            None
        },
        _ => None,
    }
}

/// The JSON array of dimension names.
pub open spec fn dimension_names_json(names: Seq<Option<Seq<char>>>) -> JsonView {
    JsonView::Array(Seq::new(names.len(), |i: int| dimension_name_json(names[i])))
}

/// Reads a descriptor.
pub fn read_descriptor(v: &Json) -> (r: Option<Descriptor>)
    ensures
        match r {
            Some(d) => descriptor_of(v@) == Some(d@),
            None => descriptor_of(v@) is None,
        },
{
    match v.get("name") {
        Some(Json::Text(name)) => {
            let configuration = match v.get("configuration") {
                Some(Json::Null) => None,
                Some(c) => Some(c.clone()),
                None => None,
            };
            Some(Descriptor { name: name.clone(), configuration })
        },
        _ => None,
    }
}

/// Writes a descriptor.
pub fn write_descriptor(d: &Descriptor) -> (r: Json)
    ensures
        r@ == descriptor_json(d@),
{
    let mut fields: Vec<(String, Json)> = Vec::new();
    fields.push((String::from_str("name"), Json::Text(d.name.clone())));
    let configuration = match &d.configuration {
        Some(c) => c.clone(),
        None => Json::Null,
    };
    fields.push((String::from_str("configuration"), configuration));
    let r = Json::object(fields);
    assert(r@->Object_0 =~= descriptor_json(d@)->Object_0);
    r
}

/// Reads an array of descriptors.
pub fn read_descriptors(v: &Json) -> (r: Option<Vec<Descriptor>>)
    ensures
        match r {
            Some(items) => descriptors_of(v@) == Some(descriptor_views(items@)),
            None => descriptors_of(v@) is None,
        },
{
    match v.items() {
        Some(items) => {
            let ghost views = v@->Array_0;
            let mut out: Vec<Descriptor> = Vec::new();
            let mut i: usize = 0;
            while i < items.len()
                invariant
                    i <= items.len(),
                    v@ == JsonView::Array(views),
                    views == item_views(items@),
                    out@.len() == i,
                    forall|j: int|
                        0 <= j < i ==> descriptor_of(views[j]) == Some((#[trigger] out@[j])@),
                decreases items.len() - i,
            {
                match read_descriptor(&items[i]) {
                    Some(d) => {
                        out.push(d);
                    },
                    None => {
                        assert(descriptor_of(views[i as int]) is None);
                        return None;
                    },
                }
                i = i + 1;
            }
            assert forall|j: int| 0 <= j < views.len() implies descriptor_of(
                #[trigger] views[j],
            ) is Some by {
                assert(descriptor_of(views[j]) == Some(out@[j]@));
            }
            Some(out)
        },
        None => None,
    }
}

/// Writes an array of descriptors.
pub fn write_descriptors(items: &Vec<Descriptor>) -> (r: Json)
    ensures
        r@ == descriptors_json(descriptor_views(items@)),
{
    let mut out: Vec<Json> = Vec::new();
    let mut i: usize = 0;
    while i < items.len()
        invariant
            i <= items.len(),
            out@.len() == i,
            forall|j: int| 0 <= j < i ==> (#[trigger] out@[j])@ == descriptor_json(items@[j]@),
        decreases items.len() - i,
    {
        out.push(write_descriptor(&items[i]));
        i = i + 1;
    }
    let r = Json::array(out);
    assert(r@->Array_0 =~= descriptors_json(descriptor_views(items@))->Array_0);
    r
}

/// Reads an array of dimension names.
pub fn read_dimension_names(v: &Json) -> (r: Option<Vec<Option<String>>>)
    ensures
        match r {
            Some(names) => dimension_names_of(v@) == Some(name_views(names@)),
            None => dimension_names_of(v@) is None,
        },
{
    match v.items() {
        Some(items) => {
            let ghost views = v@->Array_0;
            let mut out: Vec<Option<String>> = Vec::new();
            let mut i: usize = 0;
            while i < items.len()
                invariant
                    i <= items.len(),
                    v@ == JsonView::Array(views),
                    views == item_views(items@),
                    out@.len() == i,
                    forall|j: int|
                        0 <= j < i ==> dimension_name_of(views[j]) == Some(
                            name_views(out@)[j],
                        ),
                decreases items.len() - i,
            {
                let ghost before = out@;
                match &items[i] {
                    Json::Text(name) => {
                        out.push(Some(name.clone()));
                    },
                    Json::Null => {
                        out.push(None);
                    },
                    _ => {
                        assert(dimension_name_of(views[i as int]) is None);
                        return None;
                    },
                }
                assert forall|j: int| 0 <= j < i + 1 implies dimension_name_of(views[j]) == Some(
                    name_views(out@)[j],
                ) by {
                    if j < i {
                        assert(name_views(out@)[j] == name_views(before)[j]);
                    }
                }
                i = i + 1;
            }
            assert forall|j: int| 0 <= j < views.len() implies dimension_name_of(
                #[trigger] views[j],
            ) is Some by {
                assert(dimension_name_of(views[j]) == Some(name_views(out@)[j]));
            }
            assert(name_views(out@) =~= Seq::new(
                views.len(),
                |i: int| dimension_name_of(views[i])->0,
            ));
            Some(out)
        },
        None => None,
    }
}

/// Writes an array of dimension names.
pub fn write_dimension_names(names: &Vec<Option<String>>) -> (r: Json)
    ensures
        r@ == dimension_names_json(name_views(names@)),
{
    let mut out: Vec<Json> = Vec::new();
    let mut i: usize = 0;
    while i < names.len()
        invariant
            i <= names.len(),
            out@.len() == i,
            forall|j: int|
                0 <= j < i ==> (#[trigger] out@[j])@ == dimension_name_json(name_views(names@)[j]),
        decreases names.len() - i,
    {
        let item = match &names[i] {
            Some(text) => Json::Text(text.clone()),
            None => Json::Null,
        };
        out.push(item);
        i = i + 1;
    }
    let r = Json::array(out);
    assert(r@->Array_0 =~= dimension_names_json(name_views(names@))->Array_0);
    r
}

/// The descriptors under a field that may be left out. The outer `None` says
/// that the field holds something that is no array of descriptors.
pub open spec fn optional_descriptors_of(doc: JsonView, name: Seq<char>) -> Option<
    Option<Seq<DescriptorView>>,
> {
    match optional_field(doc, name) {
        None => Some(None),
        Some(v) => match descriptors_of(v) {
            Some(items) => Some(Some(items)),
            None => None,
        },
    }
}

/// The dimension names under a field that may be left out. The outer `None`
/// says that the field holds something that is no array of names.
pub open spec fn optional_names_of(doc: JsonView, name: Seq<char>) -> Option<
    Option<Seq<Option<Seq<char>>>>,
> {
    match optional_field(doc, name) {
        None => Some(None),
        Some(v) => match dimension_names_of(v) {
            Some(names) => Some(Some(names)),
            None => None,
        },
    }
}

/// The unsigned integers under a field.
pub open spec fn unsigned_field(doc: JsonView, name: Seq<char>) -> Option<Seq<u64>> {
    match doc.field(name) {
        Some(v) => unsigned_items(v),
        None => None,
    }
}

/// The text under a field.
pub open spec fn text_field(doc: JsonView, name: Seq<char>) -> Option<Seq<char>> {
    match doc.field(name) {
        Some(JsonView::Text(text)) => Some(text),
        _ => None,
    }
}

/// The envelope under a field.
pub open spec fn envelope_field(doc: JsonView, name: Seq<char>) -> Option<
    crate::envelope::NameConfigView,
> {
    match doc.field(name) {
        Some(v) => envelope_of(v),
        None => None,
    }
}

/// The data type under the field `data_type`.
pub open spec fn data_type_field(doc: JsonView) -> Option<DataType> {
    match text_field(doc, "data_type"@) {
        Some(name) => DataType::named(name),
        None => None,
    }
}

/// The chunk shape under the field `chunk_grid`.
pub open spec fn chunk_grid_field(doc: JsonView) -> Option<Seq<u64>> {
    match envelope_field(doc, "chunk_grid"@) {
        Some(envelope) => chunk_shape_of(envelope),
        None => None,
    }
}

/// The chunk key encoding under the field `chunk_key_encoding`.
pub open spec fn chunk_key_encoding_field(doc: JsonView) -> Option<ChunkKeyEncoding> {
    match envelope_field(doc, "chunk_key_encoding"@) {
        Some(envelope) => chunk_key_encoding_of(envelope),
        None => None,
    }
}

/// The descriptors under the field `codecs`.
pub open spec fn codecs_field(doc: JsonView) -> Option<Seq<DescriptorView>> {
    match doc.field("codecs"@) {
        Some(v) => descriptors_of(v),
        None => None,
    }
}

/// The document form of array metadata that a JSON object holds. The fields
/// `shape`, `data_type`, `chunk_grid`, `chunk_key_encoding`, `fill_value` and
/// `codecs` must be there; `storage_transformers` and `dimension_names` may
/// be left out or `null`. Other fields are passed over.
pub open spec fn serializer_of(doc: JsonView) -> Option<SerializerView> {
    let shape = unsigned_field(doc, "shape"@);
    let data_type = data_type_field(doc);
    let chunk_shape = chunk_grid_field(doc);
    let chunk_key_encoding = chunk_key_encoding_field(doc);
    let fill_value = doc.field("fill_value"@);
    let codecs = codecs_field(doc);
    let storage_transformers = optional_descriptors_of(doc, "storage_transformers"@);
    let dimension_names = optional_names_of(doc, "dimension_names"@);
    if shape is Some && data_type is Some && chunk_shape is Some && chunk_key_encoding is Some
        && fill_value is Some && codecs is Some && storage_transformers is Some
        && dimension_names is Some {
        Some(
            SerializerView {
                shape: shape->0,
                data_type: data_type->0,
                chunk_shape: chunk_shape->0,
                chunk_key_encoding: chunk_key_encoding->0,
                fill_value: fill_value->0,
                codecs: codecs->0,
                storage_transformers: storage_transformers->0,
                dimension_names: dimension_names->0,
            },
        )
    } else {
        None
    }
}

/// The fields of the document form of array metadata, in the order in which
/// they are written.
pub open spec fn serializer_fields(s: SerializerView) -> Seq<(Seq<char>, JsonView)> {
    seq![
        ("shape"@, unsigned_array(s.shape)),
        ("data_type"@, JsonView::Text(s.data_type.spec_name())),
        ("chunk_grid"@, envelope_json(chunk_shape_envelope(s.chunk_shape))),
        ("chunk_key_encoding"@, envelope_json(chunk_key_encoding_envelope())),
        ("fill_value"@, s.fill_value),
        ("codecs"@, descriptors_json(s.codecs)),
        (
            "storage_transformers"@,
            match s.storage_transformers {
                Some(items) => descriptors_json(items),
                None => JsonView::Null,
            },
        ),
        (
            "dimension_names"@,
            match s.dimension_names {
                Some(names) => dimension_names_json(names),
                None => JsonView::Null,
            },
        ),
    ]
}

impl ZarrArrayMetadataSerialzer {
    /// Reads the document form of array metadata from the fields of a JSON
    /// object.
    pub fn from_json(doc: &Json) -> (r: Option<ZarrArrayMetadataSerialzer>)
        ensures
            match r {
                Some(s) => serializer_of(doc@) == Some(s@),
                None => serializer_of(doc@) is None,
            },
    {
        let shape = match doc.get("shape") {
            Some(v) => match read_unsigned_items(v) {
                Some(shape) => shape,
                None => {
                    return None;
                },
            },
            None => {
                return None;
            },
        };
        let data_type = match doc.get("data_type") {
            Some(Json::Text(name)) => match DataType::from_name(name.as_str()) {
                Some(data_type) => data_type,
                None => {
                    return None;
                },
            },
            _ => {
                return None;
            },
        };
        let grid = match doc.get("chunk_grid") {
            Some(v) => match NameConfigSerializer::from_json(v) {
                Some(envelope) => envelope,
                None => {
                    return None;
                },
            },
            None => {
                return None;
            },
        };
        let chunk_shape = match ChunkShape::try_from(grid) {
            Ok(chunk_shape) => chunk_shape,
            Err(_) => {
                return None;
            },
        };
        let encoding = match doc.get("chunk_key_encoding") {
            Some(v) => match NameConfigSerializer::from_json(v) {
                Some(envelope) => envelope,
                None => {
                    return None;
                },
            },
            None => {
                return None;
            },
        };
        let chunk_key_encoding = match ChunkKeyEncoding::try_from(encoding) {
            Ok(chunk_key_encoding) => chunk_key_encoding,
            Err(_) => {
                return None;
            },
        };
        let fill_value = match doc.get("fill_value") {
            Some(v) => v.clone(),
            None => {
                return None;
            },
        };
        let codecs = match doc.get("codecs") {
            Some(v) => match read_descriptors(v) {
                Some(codecs) => codecs,
                None => {
                    return None;
                },
            },
            None => {
                return None;
            },
        };
        let storage_transformers = match doc.get("storage_transformers") {
            Some(Json::Null) => None,
            Some(v) => match read_descriptors(v) {
                Some(items) => Some(items),
                None => {
                    return None;
                },
            },
            None => None,
        };
        let dimension_names = match doc.get("dimension_names") {
            Some(Json::Null) => None,
            Some(v) => match read_dimension_names(v) {
                Some(names) => Some(names),
                None => {
                    return None;
                },
            },
            None => None,
        };
        Some(
            ZarrArrayMetadataSerialzer {
                shape,
                data_type,
                chunk_shape,
                chunk_key_encoding,
                fill_value,
                codecs,
                storage_transformers,
                dimension_names,
            },
        )
    }

    /// Appends the fields of the document form to the fields of a JSON
    /// object.
    pub fn write_fields(&self, fields: &mut Vec<(String, Json)>)
        ensures
            field_views(final(fields)@) == field_views(old(fields)@) + serializer_fields(self@),
    {
        let grid = NameConfigSerializer::from(self.chunk_shape.clone());
        let encoding = NameConfigSerializer::from(self.chunk_key_encoding);
        fields.push((String::from_str("shape"), write_unsigned_array(&self.shape)));
        fields.push(
            (String::from_str("data_type"), Json::Text(String::from_str(self.data_type.name()))),
        );
        fields.push((String::from_str("chunk_grid"), grid.to_json()));
        fields.push((String::from_str("chunk_key_encoding"), encoding.to_json()));
        fields.push((String::from_str("fill_value"), self.fill_value.clone()));
        fields.push((String::from_str("codecs"), write_descriptors(&self.codecs)));
        let transformers = match &self.storage_transformers {
            Some(items) => write_descriptors(items),
            None => Json::Null,
        };
        fields.push((String::from_str("storage_transformers"), transformers));
        let names = match &self.dimension_names {
            Some(names) => write_dimension_names(names),
            None => Json::Null,
        };
        fields.push((String::from_str("dimension_names"), names));
    }
}

/// The metadata document of a group.
#[derive(Debug, Clone, PartialEq, Eq)]
pub struct GroupMetadata {
    pub zarr_format: u8,
    pub node_type: String,
    pub attributes: Option<UserAttributes>,
}

/// Group metadata as a mathematical value.
pub struct GroupMetadataView {
    pub zarr_format: u8,
    pub node_type: Seq<char>,
    pub attributes: Option<JsonView>,
}

/// The view of attributes that may be absent.
pub open spec fn attributes_view(attributes: Option<UserAttributes>) -> Option<JsonView> {
    match attributes {
        Some(a) => Some(a@),
        None => None,
    }
}

impl View for GroupMetadata {
    type V = GroupMetadataView;

    open spec fn view(&self) -> GroupMetadataView {
        GroupMetadataView {
            zarr_format: self.zarr_format,
            node_type: self.node_type@,
            attributes: attributes_view(self.attributes),
        }
    }
}

/// The metadata document of an array.
#[derive(Debug, Clone, PartialEq, Eq)]
pub struct ArrayMetadata {
    pub zarr_format: u8,
    pub node_type: String,
    pub attributes: Option<UserAttributes>,
    pub zarr_metadata: ZarrArrayMetadata,
}

/// An array's metadata document as a mathematical value.
pub struct ArrayMetadataView {
    pub zarr_format: u8,
    pub node_type: Seq<char>,
    pub attributes: Option<JsonView>,
    pub zarr_metadata: ZarrArrayMetadataView,
}

impl View for ArrayMetadata {
    type V = ArrayMetadataView;

    open spec fn view(&self) -> ArrayMetadataView {
        ArrayMetadataView {
            zarr_format: self.zarr_format,
            node_type: self.node_type@,
            attributes: attributes_view(self.attributes),
            zarr_metadata: self.zarr_metadata@,
        }
    }
}

/// The format number under the field `zarr_format`: an integer up to 255.
pub open spec fn zarr_format_field(doc: JsonView) -> Option<u8> {
    match doc.field("zarr_format"@) {
        Some(JsonView::PosInt(n)) => if n <= 0xff {
            Some(n as u8)
        } else {
            None
        },
        _ => None,
    }
}

/// The attributes under the field `attributes`, which may be left out or
/// `null`. The outer `None` says that the field holds something that is no
/// object.
pub open spec fn attributes_field(doc: JsonView) -> Option<Option<JsonView>> {
    match optional_field(doc, "attributes"@) {
        None => Some(None),
        Some(v) => if v is Object {
            Some(Some(v))
        } else {
            None
        },
    }
}

/// The three fields that every metadata document begins with.
pub struct HeadView {
    pub zarr_format: u8,
    pub node_type: Seq<char>,
    pub attributes: Option<JsonView>,
}

/// The head of a metadata document: an integer `zarr_format`, a text
/// `node_type`, and `attributes` that are an object, `null` or left out.
/// Other fields are passed over.
pub open spec fn head_of(doc: JsonView) -> Option<HeadView> {
    match (zarr_format_field(doc), text_field(doc, "node_type"@), attributes_field(doc)) {
        (Some(zarr_format), Some(node_type), Some(attributes)) => Some(
            HeadView { zarr_format, node_type, attributes },
        ),
        _ => None,
    }
}

/// The group metadata that a JSON document holds: its head. A document that
/// calls itself an array, by the node type `array`, is no group metadata,
/// whatever else it holds.
pub open spec fn group_metadata_of(doc: JsonView) -> Option<GroupMetadataView> {
    match head_of(doc) {
        Some(head) => if head.node_type == "array"@ {
            None
        } else {
            Some(
                GroupMetadataView {
                    zarr_format: head.zarr_format,
                    node_type: head.node_type,
                    attributes: head.attributes,
                },
            )
        },
        None => None,
    }
}

/// The array metadata that a JSON document holds: the head, and in the same
/// object the fields of the array, with a fill value that suits the data
/// type.
pub open spec fn array_metadata_of(doc: JsonView) -> Option<ArrayMetadataView> {
    match (head_of(doc), serializer_of(doc)) {
        (Some(head), Some(fields)) => match typed(fields) {
            Some(zarr_metadata) => Some(
                ArrayMetadataView {
                    zarr_format: head.zarr_format,
                    node_type: head.node_type,
                    attributes: head.attributes,
                    zarr_metadata,
                },
            ),
            None => None,
        },
        _ => None,
    }
}

/// The three fields that every metadata document begins with.
pub open spec fn head_fields(zarr_format: u8, node_type: Seq<char>, attributes: Option<JsonView>)
    -> Seq<(Seq<char>, JsonView)> {
    seq![
        ("zarr_format"@, JsonView::PosInt(zarr_format as u64)),
        ("node_type"@, JsonView::Text(node_type)),
        ("attributes"@, optional_json(attributes)),
    ]
}

/// The JSON document of group metadata.
pub open spec fn group_metadata_json(g: GroupMetadataView) -> JsonView {
    JsonView::Object(head_fields(g.zarr_format, g.node_type, g.attributes))
}

/// The JSON document of array metadata: the fields of the array follow the
/// head in the same object.
pub open spec fn array_metadata_json(m: ArrayMetadataView) -> JsonView {
    JsonView::Object(
        head_fields(m.zarr_format, m.node_type, m.attributes) + serializer_fields(
            untyped(m.zarr_metadata),
        ),
    )
}

/// What reading the text `bytes` as array metadata gives.
pub open spec fn parse_array_metadata(bytes: Seq<u8>) -> Option<ArrayMetadataView> {
    match json_document(bytes) {
        Some(doc) => array_metadata_of(doc),
        None => None,
    }
}

/// What reading the text `bytes` as group metadata gives.
pub open spec fn parse_group_metadata(bytes: Seq<u8>) -> Option<GroupMetadataView> {
    match json_document(bytes) {
        Some(doc) => group_metadata_of(doc),
        None => None,
    }
}

/// Reads the three fields that every metadata document begins with.
fn read_head(doc: &Json) -> (r: Option<(u8, String, Option<UserAttributes>)>)
    ensures
        match r {
            Some(head) => head_of(doc@) == Some(
                HeadView {
                    zarr_format: head.0,
                    node_type: head.1@,
                    attributes: attributes_view(head.2),
                },
            ),
            None => head_of(doc@) is None,
        },
{
    let zarr_format: u8 = match doc.get("zarr_format") {
        Some(Json::PosInt(n)) => {
            if *n <= 0xff {
                *n as u8
            } else {
                return None;
            }
        },
        _ => {
            return None;
        },
    };
    let node_type = match doc.get("node_type") {
        Some(Json::Text(text)) => text.clone(),
        _ => {
            return None;
        },
    };
    let attributes = match doc.get("attributes") {
        Some(Json::Null) => None,
        Some(v) => match UserAttributes::new(v.clone()) {
            Some(attributes) => Some(attributes),
            None => {
                return None;
            },
        },
        None => None,
    };
    Some((zarr_format, node_type, attributes))
}

/// Writes the three fields that every metadata document begins with.
fn write_head(zarr_format: u8, node_type: &String, attributes: &Option<UserAttributes>) -> (r: Vec<
    (String, Json),
>)
    ensures
        field_views(r@) == head_fields(zarr_format, node_type@, attributes_view(*attributes)),
{
    let mut fields: Vec<(String, Json)> = Vec::new();
    fields.push((String::from_str("zarr_format"), Json::PosInt(zarr_format as u64)));
    fields.push((String::from_str("node_type"), Json::Text(node_type.clone())));
    let value = match attributes {
        Some(a) => a.as_json().clone(),
        None => Json::Null,
    };
    fields.push((String::from_str("attributes"), value));
    fields
}

impl GroupMetadata {
    /// The metadata document of a group with the given attributes: format 3,
    /// node type `group`.
    pub fn new(attributes: Option<UserAttributes>) -> (r: GroupMetadata)
        ensures
            r@ == (GroupMetadataView {
                zarr_format: 3,
                node_type: "group"@,
                attributes: attributes_view(attributes),
            }),
    {
        GroupMetadata { zarr_format: 3, node_type: String::from_str("group"), attributes }
    }

    /// Reads group metadata from a JSON document.
    pub fn from_json(doc: &Json) -> (r: Result<GroupMetadata, DocumentError>)
        ensures
            match r {
                Ok(g) => group_metadata_of(doc@) == Some(g@),
                Err(e) => group_metadata_of(doc@) is None && e is Format,
            },
    {
        match read_head(doc) {
            Some((zarr_format, node_type, attributes)) => {
                if str_eq(node_type.as_str(), "array") {
                    Err(DocumentError::Format)
                } else {
                    Ok(GroupMetadata { zarr_format, node_type, attributes })
                }
            },
            None => Err(DocumentError::Format),
        }
    }

    /// Reads group metadata from JSON text.
    pub fn from_bytes(bytes: &[u8]) -> (r: Result<GroupMetadata, DocumentError>)
        ensures
            match r {
                Ok(g) => parse_group_metadata(bytes@) == Some(g@),
                Err(e) => parse_group_metadata(bytes@) is None && (e is Syntax <==> json_document(
                    bytes@,
                ) is None),
            },
    {
        match Json::parse(bytes) {
            Ok(doc) => GroupMetadata::from_json(&doc),
            Err(e) => Err(DocumentError::Syntax(e)),
        }
    }

    /// The JSON document of the metadata.
    pub fn to_json(&self) -> (r: Json)
        ensures
            r@ == group_metadata_json(self@),
    {
        Json::object(write_head(self.zarr_format, &self.node_type, &self.attributes))
    }

    /// The JSON text of the metadata.
    pub fn to_bytes(&self) -> (r: Vec<u8>)
        ensures
            r@ == json_text(group_metadata_json(self@)),
    {
        self.to_json().to_bytes()
    }
}

impl ArrayMetadata {
    /// The metadata document of an array with the given attributes and
    /// metadata: format 3, node type `array`.
    pub fn new(attributes: Option<UserAttributes>, zarr_metadata: ZarrArrayMetadata) -> (r:
        ArrayMetadata)
        ensures
            r@ == (ArrayMetadataView {
                zarr_format: 3,
                node_type: "array"@,
                attributes: attributes_view(attributes),
                zarr_metadata: zarr_metadata@,
            }),
    {
        ArrayMetadata {
            zarr_format: 3,
            node_type: String::from_str("array"),
            attributes,
            zarr_metadata,
        }
    }

    /// Reads array metadata from a JSON document.
    pub fn from_json(doc: &Json) -> (r: Result<ArrayMetadata, DocumentError>)
        ensures
            match r {
                Ok(m) => array_metadata_of(doc@) == Some(m@),
                Err(e) => array_metadata_of(doc@) is None && e is Format,
            },
    {
        let head = match read_head(doc) {
            Some(head) => head,
            None => {
                return Err(DocumentError::Format);
            },
        };
        let fields = match ZarrArrayMetadataSerialzer::from_json(doc) {
            Some(fields) => fields,
            None => {
                return Err(DocumentError::Format);
            },
        };
        match ZarrArrayMetadata::try_from(fields) {
            Ok(zarr_metadata) => Ok(
                ArrayMetadata {
                    zarr_format: head.0,
                    node_type: head.1,
                    attributes: head.2,
                    zarr_metadata,
                },
            ),
            Err(e) => Err(e),
        }
    }

    /// Reads array metadata from JSON text.
    pub fn from_bytes(bytes: &[u8]) -> (r: Result<ArrayMetadata, DocumentError>)
        ensures
            match r {
                Ok(m) => parse_array_metadata(bytes@) == Some(m@),
                Err(e) => parse_array_metadata(bytes@) is None && (e is Syntax <==> json_document(
                    bytes@,
                ) is None),
            },
    {
        match Json::parse(bytes) {
            Ok(doc) => ArrayMetadata::from_json(&doc),
            Err(e) => Err(DocumentError::Syntax(e)),
        }
    }

    /// The JSON document of the metadata.
    pub fn to_json(&self) -> (r: Json)
        ensures
            r@ == array_metadata_json(self@),
    {
        let mut fields = write_head(self.zarr_format, &self.node_type, &self.attributes);
        let form = ZarrArrayMetadataSerialzer {
            shape: self.zarr_metadata.shape.clone(),
            data_type: self.zarr_metadata.data_type,
            chunk_shape: self.zarr_metadata.chunk_shape.clone(),
            chunk_key_encoding: self.zarr_metadata.chunk_key_encoding,
            fill_value: self.zarr_metadata.fill_value.value().clone(),
            codecs: clone_descriptors(&self.zarr_metadata.codecs),
            storage_transformers: match &self.zarr_metadata.storage_transformers {
                Some(items) => Some(clone_descriptors(items)),
                None => None,
            },
            dimension_names: match &self.zarr_metadata.dimension_names {
                Some(names) => Some(clone_names(names)),
                None => None,
            },
        };
        form.write_fields(&mut fields);
        Json::object(fields)
    }

    /// The JSON text of the metadata.
    pub fn to_bytes(&self) -> (r: Vec<u8>)
        ensures
            r@ == json_text(array_metadata_json(self@)),
    {
        self.to_json().to_bytes()
    }
}

/// A copy of descriptors.
pub fn clone_descriptors(items: &Vec<Descriptor>) -> (r: Vec<Descriptor>)
    ensures
        descriptor_views(r@) == descriptor_views(items@),
{
    let mut out: Vec<Descriptor> = Vec::new();
    let mut i: usize = 0;
    while i < items.len()
        invariant
            i <= items.len(),
            out@.len() == i,
            forall|j: int| 0 <= j < i ==> (#[trigger] out@[j])@ == items@[j]@,
        decreases items.len() - i,
    {
        out.push(items[i].clone());
        i = i + 1;
    }
    out
}

/// A copy of dimension names.
pub fn clone_names(names: &Vec<Option<String>>) -> (r: Vec<Option<String>>)
    ensures
        name_views(r@) == name_views(names@),
{
    let mut out: Vec<Option<String>> = Vec::new();
    let mut i: usize = 0;
    while i < names.len()
        invariant
            i <= names.len(),
            out@.len() == i,
            forall|j: int| 0 <= j < i ==> name_views(out@)[j] == name_views(names@)[j],
        decreases names.len() - i,
    {
        let ghost before = out@;
        let item = match &names[i] {
            Some(text) => Some(text.clone()),
            None => None,
        };
        out.push(item);
        assert forall|j: int| 0 <= j < i + 1 implies name_views(out@)[j] == name_views(
            names@,
        )[j] by {
            if j < i {
                assert(name_views(out@)[j] == name_views(before)[j]);
            }
        }
        i = i + 1;
    }
    assert(name_views(out@) =~= name_views(names@));
    out
}

/// Whether a descriptor is one that a document can hold: a configuration
/// that is there is not `null`.
pub open spec fn descriptor_valid(d: DescriptorView) -> bool {
    d.configuration != Some(JsonView::Null)
}

/// Whether every descriptor of `items` is valid.
pub open spec fn descriptors_valid(items: Seq<DescriptorView>) -> bool {
    forall|i: int| 0 <= i < items.len() ==> descriptor_valid(#[trigger] items[i])
}

/// Whether array metadata is valid: the fill value suits the data type, the
/// extents of a chunk are at least one, the chunk key encoding is the one
/// that a document can name, and the descriptors are valid.
pub open spec fn array_valid(m: ZarrArrayMetadataView) -> bool {
    &&& m.fill_value.data_type == m.data_type
    &&& fits(m.data_type, m.fill_value.value)
    &&& all_positive(m.chunk_shape)
    &&& m.chunk_key_encoding is Slash
    &&& descriptors_valid(m.codecs)
    &&& (m.storage_transformers matches Some(items) ==> descriptors_valid(items))
}

/// Whether attributes are valid: where there are any, they are an object.
pub open spec fn attributes_valid(attributes: Option<JsonView>) -> bool {
    attributes matches Some(a) ==> a is Object
}

/// Unsigned integers read back from their JSON array.
pub proof fn lemma_unsigned_round_trip(values: Seq<u64>)
    ensures
        unsigned_items(unsigned_array(values)) == Some(values),
{
    assert(unsigned_items(unsigned_array(values))->0 =~= values);
}

/// A valid descriptor reads back from its JSON object.
pub proof fn lemma_descriptor_round_trip(d: DescriptorView)
    requires
        descriptor_valid(d),
    ensures
        descriptor_of(descriptor_json(d)) == Some(d),
{
    reveal_strlit("name");
    reveal_strlit("configuration");
    assert("name"@.len() != "configuration"@.len());
    let fields = descriptor_json(d)->Object_0;
    lemma_lookup_index(fields, 0, "name"@);
    lemma_lookup_index(fields, 1, "configuration"@);
}

/// Valid descriptors read back from their JSON array.
pub proof fn lemma_descriptors_round_trip(items: Seq<DescriptorView>)
    requires
        descriptors_valid(items),
    ensures
        descriptors_of(descriptors_json(items)) == Some(items),
{
    let array = descriptors_json(items)->Array_0;
    assert forall|i: int| 0 <= i < array.len() implies descriptor_of(#[trigger] array[i]) == Some(
        items[i],
    ) by {
        lemma_descriptor_round_trip(items[i]);
    }
    assert(descriptors_of(descriptors_json(items))->0 =~= items);
}

/// Dimension names read back from their JSON array.
pub proof fn lemma_dimension_names_round_trip(names: Seq<Option<Seq<char>>>)
    ensures
        dimension_names_of(dimension_names_json(names)) == Some(names),
{
    let array = dimension_names_json(names)->Array_0;
    assert forall|i: int| 0 <= i < array.len() implies dimension_name_of(#[trigger] array[i])
        == Some(names[i]) by {}
    assert(dimension_names_of(dimension_names_json(names))->0 =~= names);
}

/// Reading metadata does not depend on the order of the fields: an object
/// without two fields of one name reads as the same metadata in every order
/// of its fields.
pub proof fn lemma_metadata_reordered(
    a: Seq<(Seq<char>, JsonView)>,
    b: Seq<(Seq<char>, JsonView)>,
)
    requires
        distinct_names(a),
        a.to_multiset() == b.to_multiset(),
    ensures
        group_metadata_of(JsonView::Object(a)) == group_metadata_of(JsonView::Object(b)),
        array_metadata_of(JsonView::Object(a)) == array_metadata_of(JsonView::Object(b)),
{
    lemma_lookup_reordered(a, b, "zarr_format"@);
    lemma_lookup_reordered(a, b, "node_type"@);
    lemma_lookup_reordered(a, b, "attributes"@);
    lemma_lookup_reordered(a, b, "shape"@);
    lemma_lookup_reordered(a, b, "data_type"@);
    lemma_lookup_reordered(a, b, "chunk_grid"@);
    lemma_lookup_reordered(a, b, "chunk_key_encoding"@);
    lemma_lookup_reordered(a, b, "fill_value"@);
    lemma_lookup_reordered(a, b, "codecs"@);
    lemma_lookup_reordered(a, b, "storage_transformers"@);
    lemma_lookup_reordered(a, b, "dimension_names"@);
    assert(serializer_of(JsonView::Object(a)) == serializer_of(JsonView::Object(b)));
}

/// The names of the fields of a metadata document differ from each other.
proof fn lemma_field_names()
    ensures
        "zarr_format"@.len() == 11,
        "node_type"@.len() == 9 && "node_type"@[0] == 'n',
        "attributes"@.len() == 10 && "attributes"@[0] == 'a',
        "shape"@.len() == 5,
        "data_type"@.len() == 9 && "data_type"@[0] == 'd',
        "chunk_grid"@.len() == 10 && "chunk_grid"@[0] == 'c',
        "chunk_key_encoding"@.len() == 18,
        "fill_value"@.len() == 10 && "fill_value"@[0] == 'f',
        "codecs"@.len() == 6,
        "storage_transformers"@.len() == 20,
        "dimension_names"@.len() == 15,
{
    reveal_strlit("zarr_format");
    reveal_strlit("node_type");
    reveal_strlit("attributes");
    reveal_strlit("shape");
    reveal_strlit("data_type");
    reveal_strlit("chunk_grid");
    reveal_strlit("chunk_key_encoding");
    reveal_strlit("fill_value");
    reveal_strlit("codecs");
    reveal_strlit("storage_transformers");
    reveal_strlit("dimension_names");
}

/// Round trip of group metadata: the document written for group metadata
/// with valid attributes, which does not call itself an array, reads back as
/// that metadata.
pub proof fn lemma_group_metadata_round_trip(g: GroupMetadataView)
    requires
        attributes_valid(g.attributes),
        g.node_type != "array"@,
    ensures
        group_metadata_of(group_metadata_json(g)) == Some(g),
{
    lemma_field_names();
    let fields = head_fields(g.zarr_format, g.node_type, g.attributes);
    lemma_lookup_index(fields, 0, "zarr_format"@);
    lemma_lookup_index(fields, 1, "node_type"@);
    lemma_lookup_index(fields, 2, "attributes"@);
}

/// Round trip of array metadata: the document written for valid array
/// metadata with valid attributes reads back as that metadata, whatever the
/// order in which a reader finds the fields.
pub proof fn lemma_array_metadata_round_trip(m: ArrayMetadataView)
    requires
        attributes_valid(m.attributes),
        array_valid(m.zarr_metadata),
    ensures
        array_metadata_of(array_metadata_json(m)) == Some(m),
{
    lemma_field_names();
    let z = m.zarr_metadata;
    let s = untyped(z);
    let doc = array_metadata_json(m);
    let fields = doc->Object_0;
    assert(fields.len() == 11);
    assert(fields[0].0 == "zarr_format"@ && fields[1].0 == "node_type"@ && fields[2].0
        == "attributes"@);
    assert(fields[3] == serializer_fields(s)[0] && fields[4] == serializer_fields(s)[1]);
    assert(fields[5] == serializer_fields(s)[2] && fields[6] == serializer_fields(s)[3]);
    assert(fields[7] == serializer_fields(s)[4] && fields[8] == serializer_fields(s)[5]);
    assert(fields[9] == serializer_fields(s)[6] && fields[10] == serializer_fields(s)[7]);
    lemma_lookup_index(fields, 0, "zarr_format"@);
    lemma_lookup_index(fields, 1, "node_type"@);
    lemma_lookup_index(fields, 2, "attributes"@);
    lemma_lookup_index(fields, 3, "shape"@);
    lemma_lookup_index(fields, 4, "data_type"@);
    lemma_lookup_index(fields, 5, "chunk_grid"@);
    lemma_lookup_index(fields, 6, "chunk_key_encoding"@);
    lemma_lookup_index(fields, 7, "fill_value"@);
    lemma_lookup_index(fields, 8, "codecs"@);
    lemma_lookup_index(fields, 9, "storage_transformers"@);
    lemma_lookup_index(fields, 10, "dimension_names"@);
    lemma_unsigned_round_trip(z.shape);
    z.data_type.lemma_named();
    crate::envelope::lemma_envelope_round_trip(chunk_shape_envelope(z.chunk_shape));
    crate::envelope::lemma_chunk_shape_round_trip(z.chunk_shape);
    crate::envelope::lemma_envelope_round_trip(chunk_key_encoding_envelope());
    crate::envelope::lemma_chunk_key_encoding_round_trip();
    lemma_descriptors_round_trip(z.codecs);
    if z.storage_transformers is Some {
        lemma_descriptors_round_trip(z.storage_transformers->0);
    }
    if z.dimension_names is Some {
        lemma_dimension_names_round_trip(z.dimension_names->0);
    }
    assert(head_of(doc) == Some(
        HeadView { zarr_format: m.zarr_format, node_type: m.node_type, attributes: m.attributes },
    ));
    assert(serializer_of(doc) == Some(s));
    assert(typed(s) == Some(z));
}

} // verus!
