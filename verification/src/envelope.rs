//! The `name` / `configuration` envelope in which array metadata carries its
//! chunk grid and its chunk key encoding.

use vstd::prelude::*;

use crate::json::{lemma_array_view, lemma_object_view, lookup, Json, JsonView};
use crate::text::str_eq;

verus! {

/// The extents of one chunk, one per dimension, each at least one.
#[derive(Debug, PartialEq, Eq)]
pub struct ChunkShape(Vec<u64>);

/// Whether every extent of a chunk shape is at least one.
pub open spec fn all_positive(dims: Seq<u64>) -> bool {
    forall|i: int| 0 <= i < dims.len() ==> #[trigger] dims[i] >= 1
}

impl View for ChunkShape {
    type V = Seq<u64>;

    closed spec fn view(&self) -> Seq<u64> {
        self.0@
    }
}

impl Clone for ChunkShape {
    fn clone(&self) -> (r: ChunkShape)
        ensures
            r@ == self@,
    {
        proof {
            use_type_invariant(self);
        }
        let dims = self.0.clone();
        ChunkShape(dims)
    }
}

impl ChunkShape {
    #[verifier::type_invariant]
    spec fn positive(&self) -> bool {
        all_positive(self.0@)
    }

    /// The chunk shape with the given extents, if none of them is zero.
    pub fn new(dims: Vec<u64>) -> (r: Option<ChunkShape>)
        ensures
            match r {
                Some(shape) => all_positive(dims@) && shape@ == dims@,
                None => !all_positive(dims@),
            },
    {
        let mut i: usize = 0;
        while i < dims.len()
            invariant
                i <= dims.len(),
                all_positive(dims@.take(i as int)),
            decreases dims.len() - i,
        {
            if dims[i] == 0 {
                return None;
            }
            assert(all_positive(dims@.take(i + 1)));
            i = i + 1;
        }
        assert(dims@.take(i as int) =~= dims@);
        Some(ChunkShape(dims))
    }

    /// The extents.
    pub fn dims(&self) -> (r: &Vec<u64>)
        ensures
            r@ == self@,
            all_positive(self@),
    {
        proof {
            use_type_invariant(self);
        }
        &self.0
    }
}

/// How the coordinates of a chunk are separated in its key.
#[derive(Debug, Clone, Copy, PartialEq, Eq, Structural)]
pub enum ChunkKeyEncoding {
    /// By `/`. The only encoding that array metadata can name.
    Slash,
    /// By `.`.
    Dot,
}

/// A `name` with its `configuration`: the form in which a chunk grid and a
/// chunk key encoding stand in array metadata.
#[derive(Debug, Clone, PartialEq, Eq)]
pub struct NameConfigSerializer {
    pub name: String,
    pub configuration: Json,
}

/// An envelope as a mathematical value.
pub struct NameConfigView {
    pub name: Seq<char>,
    pub configuration: JsonView,
}

impl View for NameConfigSerializer {
    type V = NameConfigView;

    open spec fn view(&self) -> NameConfigView {
        NameConfigView { name: self.name@, configuration: self.configuration@ }
    }
}

/// The unsigned integers that a JSON array holds, if it is an array of them.
pub open spec fn unsigned_items(v: JsonView) -> Option<Seq<u64>> {
    match v {
        JsonView::Array(items) => if forall|i: int|
            0 <= i < items.len() ==> (#[trigger] items[i]) is PosInt {
            Some(Seq::new(items.len(), |i: int| items[i]->PosInt_0))
        } else {
            None
        },
        _ => None,
    }
}

/// The JSON array of the unsigned integers `values`.
pub open spec fn unsigned_array(values: Seq<u64>) -> JsonView {
    JsonView::Array(Seq::new(values.len(), |i: int| JsonView::PosInt(values[i])))
}

/// The chunk shape that an envelope holds: its name is `regular`, and the
/// field `chunk_shape` of its configuration is an array of integers of at
/// least one.
pub open spec fn chunk_shape_of(envelope: NameConfigView) -> Option<Seq<u64>> {
    if envelope.name == "regular"@ {
        match envelope.configuration.field("chunk_shape"@) {
            Some(items) => match unsigned_items(items) {
                Some(dims) => if all_positive(dims) {
                    Some(dims)
                } else {
                    None
                },
                None => None,
            },
            None => None,
        }
    } else {
        None
    }
}

/// The envelope of a chunk shape.
pub open spec fn chunk_shape_envelope(dims: Seq<u64>) -> NameConfigView {
    NameConfigView {
        name: "regular"@,
        configuration: JsonView::Object(seq![("chunk_shape"@, unsigned_array(dims))]),
    }
}

/// The chunk key encoding that an envelope holds: its name is `default`, and
/// the field `separator` of its configuration is the text `/`.
pub open spec fn chunk_key_encoding_of(envelope: NameConfigView) -> Option<ChunkKeyEncoding> {
    if envelope.name == "default"@ && envelope.configuration.field("separator"@) == Some(
        JsonView::Text("/"@),
    ) {
        Some(ChunkKeyEncoding::Slash)
    } else {
        None
    }
}

/// The envelope of the chunk key encoding. Whatever the encoding, the
/// separator written is `/`.
pub open spec fn chunk_key_encoding_envelope() -> NameConfigView {
    NameConfigView {
        name: "default"@,
        configuration: JsonView::Object(seq![("separator"@, JsonView::Text("/"@))]),
    }
}

/// The envelope that a JSON value holds: an object with a text `name` and a
/// `configuration`.
pub open spec fn envelope_of(v: JsonView) -> Option<NameConfigView> {
    match (v.field("name"@), v.field("configuration"@)) {
        (Some(JsonView::Text(name)), Some(configuration)) => Some(
            NameConfigView { name, configuration },
        ),
        _ => None,
    }
}

/// The JSON object of an envelope: `name`, then `configuration`.
pub open spec fn envelope_json(envelope: NameConfigView) -> JsonView {
    JsonView::Object(
        seq![
            ("name"@, JsonView::Text(envelope.name)),
            ("configuration"@, envelope.configuration),
        ],
    )
}

/// The unsigned integers that a JSON array holds, if it is an array of them.
pub fn read_unsigned_items(v: &Json) -> (r: Option<Vec<u64>>)
    ensures
        match r {
            Some(values) => unsigned_items(v@) == Some(values@),
            None => unsigned_items(v@) is None,
        },
{
    match v {
        Json::Array(items) => {
            proof {
                lemma_array_view(*v);
            }
            let ghost views = v@->Array_0;
            let mut values: Vec<u64> = Vec::new();
            let mut i: usize = 0;
            while i < items.len()
                invariant
                    i <= items.len(),
                    v@ == JsonView::Array(views),
                    views.len() == items.len(),
                    forall|j: int| 0 <= j < items.len() ==> views[j] == items[j]@,
                    values@.len() == i,
                    forall|j: int| 0 <= j < i ==> views[j] == JsonView::PosInt(#[trigger] values@[j]),
                decreases items.len() - i,
            {
                match &items[i] {
                    Json::PosInt(n) => {
                        values.push(*n);
                    },
                    _ => {
                        assert(!(views[i as int] is PosInt));
                        return None;
                    },
                }
                i = i + 1;
            }
            assert forall|j: int| 0 <= j < views.len() implies (#[trigger] views[j]) is PosInt by {
                assert(views[j] == JsonView::PosInt(values@[j]));
            }
            Some(values)
        },
        _ => None,
    }
}

/// The JSON array of the unsigned integers `values`.
pub fn write_unsigned_array(values: &Vec<u64>) -> (r: Json)
    ensures
        r@ == unsigned_array(values@),
{
    let mut items: Vec<Json> = Vec::new();
    let mut i: usize = 0;
    while i < values.len()
        invariant
            i <= values.len(),
            items.len() == i,
            forall|j: int| 0 <= j < i ==> (#[trigger] items[j])@ == JsonView::PosInt(values[j]),
        decreases values.len() - i,
    {
        items.push(Json::PosInt(values[i]));
        i = i + 1;
    }
    let r = Json::Array(items);
    proof {
        lemma_array_view(r);
        assert(r@->Array_0 =~= unsigned_array(values@)->Array_0);
    }
    r
}

/// A JSON object of one field.
pub fn object_of_one(name: &str, value: Json) -> (r: Json)
    ensures
        r@ == JsonView::Object(seq![(name@, value@)]),
{
    let mut fields: Vec<(String, Json)> = Vec::new();
    fields.push((String::from_str(name), value));
    let r = Json::Object(fields);
    proof {
        lemma_object_view(r);
        assert(r@->Object_0 =~= seq![(name@, value@)]);
    }
    r
}

impl NameConfigSerializer {
    /// The envelope that a JSON value holds.
    pub fn from_json(v: &Json) -> (r: Option<NameConfigSerializer>)
        ensures
            match r {
                Some(envelope) => envelope_of(v@) == Some(envelope@),
                None => envelope_of(v@) is None,
            },
    {
        match (v.get("name"), v.get("configuration")) {
            (Some(Json::Text(name)), Some(configuration)) => Some(
                NameConfigSerializer { name: name.clone(), configuration: configuration.clone() },
            ),
            _ => None,
        }
    }

    /// The JSON object of the envelope.
    pub fn to_json(&self) -> (r: Json)
        ensures
            r@ == envelope_json(self@),
    {
        let mut fields: Vec<(String, Json)> = Vec::new();
        fields.push((String::from_str("name"), Json::Text(self.name.clone())));
        fields.push((String::from_str("configuration"), self.configuration.clone()));
        let r = Json::Object(fields);
        proof {
            lemma_object_view(r);
            assert(r@->Object_0 =~= envelope_json(self@)->Object_0);
        }
        r
    }
}

impl From<ChunkShape> for NameConfigSerializer {
    /// The envelope of a chunk shape.
    fn from(value: ChunkShape) -> (r: NameConfigSerializer)
        ensures
            r@ == chunk_shape_envelope(value@),
    {
        NameConfigSerializer {
            name: String::from_str("regular"),
            configuration: object_of_one("chunk_shape", write_unsigned_array(value.dims())),
        }
    }
}

impl vstd::std_specs::convert::FromSpecImpl<ChunkShape> for NameConfigSerializer {
    open spec fn obeys_from_spec() -> bool {
        false
    }

    open spec fn from_spec(v: ChunkShape) -> NameConfigSerializer {
        arbitrary()
    }
}

impl TryFrom<NameConfigSerializer> for ChunkShape {
    type Error = &'static str;

    /// The chunk shape that an envelope holds.
    fn try_from(value: NameConfigSerializer) -> (r: Result<ChunkShape, &'static str>)
        ensures
            match r {
                Ok(shape) => chunk_shape_of(value@) == Some(shape@),
                Err(message) => chunk_shape_of(value@) is None && message@
                    == "cannot parse ChunkShape"@,
            },
    {
        if !str_eq(value.name.as_str(), "regular") {
            return Err("cannot parse ChunkShape");
        }
        let dims = match value.configuration.get("chunk_shape") {
            Some(items) => read_unsigned_items(items),
            None => None,
        };
        match dims {
            Some(dims) => match ChunkShape::new(dims) {
                Some(shape) => Ok(shape),
                None => Err("cannot parse ChunkShape"),
            },
            None => Err("cannot parse ChunkShape"),
        }
    }
}

impl vstd::std_specs::convert::TryFromSpecImpl<NameConfigSerializer> for ChunkShape {
    open spec fn obeys_try_from_spec() -> bool {
        false
    }

    open spec fn try_from_spec(v: NameConfigSerializer) -> Result<ChunkShape, &'static str> {
        arbitrary()
    }
}

impl From<ChunkKeyEncoding> for NameConfigSerializer {
    /// The envelope of the chunk key encoding.
    fn from(_value: ChunkKeyEncoding) -> (r: NameConfigSerializer)
        ensures
            r@ == chunk_key_encoding_envelope(),
    {
        NameConfigSerializer {
            name: String::from_str("default"),
            configuration: object_of_one("separator", Json::Text(String::from_str("/"))),
        }
    }
}

impl vstd::std_specs::convert::FromSpecImpl<ChunkKeyEncoding> for NameConfigSerializer {
    open spec fn obeys_from_spec() -> bool {
        false
    }

    open spec fn from_spec(v: ChunkKeyEncoding) -> NameConfigSerializer {
        arbitrary()
    }
}

impl TryFrom<NameConfigSerializer> for ChunkKeyEncoding {
    type Error = &'static str;

    /// The chunk key encoding that an envelope holds.
    fn try_from(value: NameConfigSerializer) -> (r: Result<ChunkKeyEncoding, &'static str>)
        ensures
            match r {
                Ok(encoding) => chunk_key_encoding_of(value@) == Some(encoding),
                Err(message) => chunk_key_encoding_of(value@) is None && message@
                    == "cannot parse ChunkKeyEncoding"@,
            },
    {
        if !str_eq(value.name.as_str(), "default") {
            return Err("cannot parse ChunkKeyEncoding");
        }
        match value.configuration.get("separator") {
            Some(Json::Text(separator)) => {
                if str_eq(separator.as_str(), "/") {
                    Ok(ChunkKeyEncoding::Slash)
                } else {
                    Err("cannot parse ChunkKeyEncoding")
                }
            },
            _ => Err("cannot parse ChunkKeyEncoding"),
        }
    }
}

impl vstd::std_specs::convert::TryFromSpecImpl<NameConfigSerializer> for ChunkKeyEncoding {
    open spec fn obeys_try_from_spec() -> bool {
        false
    }

    open spec fn try_from_spec(v: NameConfigSerializer) -> Result<ChunkKeyEncoding, &'static str> {
        arbitrary()
    }
}

/// An envelope reads back from its JSON object.
pub proof fn lemma_envelope_round_trip(envelope: NameConfigView)
    ensures
        envelope_of(envelope_json(envelope)) == Some(envelope),
{
    reveal_strlit("name");
    reveal_strlit("configuration");
    assert("name"@.len() != "configuration"@.len());
    let fields = envelope_json(envelope)->Object_0;
    assert(fields.drop_first()[0] == fields[1]);
    reveal_with_fuel(lookup, 3);
}

/// A chunk shape reads back from its envelope.
pub proof fn lemma_chunk_shape_round_trip(dims: Seq<u64>)
    requires
        all_positive(dims),
    ensures
        chunk_shape_of(chunk_shape_envelope(dims)) == Some(dims),
{
    let items = unsigned_array(dims);
    assert(unsigned_items(items)->0 =~= dims);
}

/// The chunk key encoding `/` reads back from its envelope.
pub proof fn lemma_chunk_key_encoding_round_trip()
    ensures
        chunk_key_encoding_of(chunk_key_encoding_envelope()) == Some(ChunkKeyEncoding::Slash),
{
}

} // verus!
