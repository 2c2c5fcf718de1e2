//! JSON documents: the values that metadata is read from and written as.
//!
//! Reading JSON text is the work of `serde_json`. What a document holds,
//! where its fields stand and how they are written is decided here.

use serde_json::Value;
use vstd::prelude::*;
use vstd::string::*;
use vstd::utf8::*;

use crate::decimal::{decimal, push_decimal};
use crate::text::{append_bytes, str_eq};

verus! {

/// `serde_json::Value`: a parsed JSON text. It is turned into a [`Json`] as
/// soon as it is read.
#[verifier::external_type_specification]
#[verifier::external_body]
pub struct ExValue(serde_json::Value);

/// A JSON value. The fields of an object keep the order in which they were
/// given, and that is the order in which they are written.
#[derive(Debug, PartialEq, Eq)]
pub enum Json {
    Null,
    Bool(bool),
    /// An integer from zero to 2^64 - 1.
    PosInt(u64),
    /// An integer from -2^63 to 2^63 - 1; below zero where it was read from
    /// text.
    NegInt(i64),
    /// Any other number, held as its JSON text.
    Real(String),
    Text(String),
    Array(Vec<Json>),
    Object(Vec<(String, Json)>),
}

/// A JSON value as a mathematical value.
pub enum JsonView {
    Null,
    Bool(bool),
    PosInt(u64),
    NegInt(i64),
    Real(Seq<char>),
    Text(Seq<char>),
    Array(Seq<JsonView>),
    Object(Seq<(Seq<char>, JsonView)>),
}

/// What a JSON value holds, as a mathematical value.
pub open spec fn json_view(v: Json) -> JsonView
    decreases v,
{
    match v {
        Json::Null => JsonView::Null,
        Json::Bool(b) => JsonView::Bool(b),
        Json::PosInt(n) => JsonView::PosInt(n),
        Json::NegInt(n) => JsonView::NegInt(n),
        Json::Real(text) => JsonView::Real(text@),
        Json::Text(text) => JsonView::Text(text@),
        Json::Array(items) => JsonView::Array(
            Seq::new(
                items.len() as nat,
                |i: int|
                    if 0 <= i < items.len() {
                        json_view(items[i])
                    } else {
                        JsonView::Null
                    },
            ),
        ),
        Json::Object(fields) => JsonView::Object(
            Seq::new(
                fields.len() as nat,
                |i: int|
                    if 0 <= i < fields.len() {
                        (fields[i].0@, json_view(fields[i].1))
                    } else {
                        (Seq::empty(), JsonView::Null)
                    },
            ),
        ),
    }
}

impl View for Json {
    type V = JsonView;

    open spec fn view(&self) -> JsonView {
        json_view(*self)
    }
}

/// The view of an array holds the views of its items.
pub proof fn lemma_array_view(v: Json)
    requires
        v is Array,
    ensures
        v@ is Array,
        v@->Array_0.len() == v->Array_0.len(),
        forall|i: int| 0 <= i < v->Array_0.len() ==> v@->Array_0[i] == (#[trigger] v->Array_0[i])@,
{
}

/// The view of an object holds the names of its fields and the views of
/// their values.
pub proof fn lemma_object_view(v: Json)
    requires
        v is Object,
    ensures
        v@ is Object,
        v@->Object_0.len() == v->Object_0.len(),
        forall|i: int|
            0 <= i < v->Object_0.len() ==> v@->Object_0[i] == ((#[trigger] v->Object_0[i]).0@, v->Object_0[i].1@),
{
}

/// The views of JSON values.
pub open spec fn item_views(items: Seq<Json>) -> Seq<JsonView> {
    items.map_values(|item: Json| item@)
}

/// The views of the fields of an object.
pub open spec fn field_views(fields: Seq<(String, Json)>) -> Seq<(Seq<char>, JsonView)> {
    fields.map_values(|field: (String, Json)| (field.0@, field.1@))
}

/// The JSON document that `serde_json` reads from the text `bytes`; nothing
/// where the text is not JSON.
pub uninterp spec fn json_document(bytes: Seq<u8>) -> Option<JsonView>;

/// The ASCII code of `"`.
pub const QUOTE: u8 = 0x22;

/// The ASCII code of `\`.
pub const BACKSLASH: u8 = 0x5c;

/// The lower-case hexadecimal digit of a value below sixteen.
pub open spec fn hex_digit(n: int) -> u8 {
    if n < 10 {
        (0x30 + n) as u8
    } else {
        (0x61 + n - 10) as u8
    }
}

/// How a byte of a string stands in JSON text. The double quote and the
/// backslash stand behind a backslash; backspace, tab, line feed, form feed
/// and carriage return as `\b`, `\t`, `\n`, `\f` and `\r`; any other
/// byte below the space as `\u00` and its two hexadecimal digits; every
/// other byte as itself.
pub open spec fn escaped(b: u8) -> Seq<u8> {
    if b == QUOTE || b == BACKSLASH {
        seq![BACKSLASH, b]
    } else if b == 0x08 {
        seq![BACKSLASH, 0x62u8]
    } else if b == 0x09 {
        seq![BACKSLASH, 0x74u8]
    } else if b == 0x0a {
        seq![BACKSLASH, 0x6eu8]
    } else if b == 0x0c {
        seq![BACKSLASH, 0x66u8]
    } else if b == 0x0d {
        seq![BACKSLASH, 0x72u8]
    } else if b < 0x20 {
        seq![BACKSLASH, 0x75u8, 0x30u8, 0x30u8, hex_digit(b as int / 16), hex_digit(b as int % 16)]
    } else {
        seq![b]
    }
}

/// The bytes `s` as they stand in JSON text, each escaped where it must be.
pub open spec fn escaped_text(s: Seq<u8>) -> Seq<u8>
    decreases s.len(),
{
    if s.len() == 0 {
        Seq::empty()
    } else {
        escaped_text(s.drop_last()) + escaped(s.last())
    }
}

/// The JSON text of the string `s`: its UTF-8 bytes, escaped, between double
/// quotes.
pub open spec fn json_string_text(s: Seq<char>) -> Seq<u8> {
    seq![QUOTE] + escaped_text(encode_utf8(s)) + seq![QUOTE]
}

/// The value of the field `name` of an object: that of the first field of
/// that name.
pub open spec fn lookup(fields: Seq<(Seq<char>, JsonView)>, name: Seq<char>) -> Option<JsonView>
    decreases fields.len(),
{
    if fields.len() == 0 {
        None
    } else if fields[0].0 == name {
        Some(fields[0].1)
    } else {
        lookup(fields.drop_first(), name)
    }
}

/// What a look-up finds is a part of the fields.
pub proof fn lemma_lookup_decreases(fields: Seq<(Seq<char>, JsonView)>, name: Seq<char>)
    ensures
        lookup(fields, name) matches Some(v) ==> decreases_to!(fields => v),
    decreases fields.len(),
{
    if fields.len() > 0 && fields[0].0 != name {
        lemma_lookup_decreases(fields.drop_first(), name);
    }
}

/// The field at index `i` is the one that a look-up of its name finds, where
/// no field before it has that name.
pub proof fn lemma_lookup_index(fields: Seq<(Seq<char>, JsonView)>, i: int, name: Seq<char>)
    requires
        0 <= i < fields.len(),
        fields[i].0 == name,
        forall|j: int| 0 <= j < i ==> (#[trigger] fields[j]).0 != name,
    ensures
        lookup(fields, name) == Some(fields[i].1),
    decreases i,
{
    if i > 0 {
        let rest = fields.drop_first();
        assert forall|j: int| 0 <= j < i - 1 implies (#[trigger] rest[j]).0 != name by {
            assert(rest[j] == fields[j + 1]);
        }
        lemma_lookup_index(rest, i - 1, name);
    }
}

/// Whether no two of the fields have the same name.
pub open spec fn distinct_names(fields: Seq<(Seq<char>, JsonView)>) -> bool {
    forall|i: int, j: int|
        0 <= i < j < fields.len() ==> (#[trigger] fields[i]).0 != (#[trigger] fields[j]).0
}

/// What a look-up finds is a field of that name, and it finds nothing only
/// where no field has the name.
pub proof fn lemma_lookup_member(fields: Seq<(Seq<char>, JsonView)>, name: Seq<char>)
    ensures
        match lookup(fields, name) {
            Some(v) => fields.contains((name, v)),
            None => forall|i: int| 0 <= i < fields.len() ==> (#[trigger] fields[i]).0 != name,
        },
    decreases fields.len(),
{
    if fields.len() > 0 && fields[0].0 != name {
        let rest = fields.drop_first();
        lemma_lookup_member(rest, name);
        match lookup(rest, name) {
            Some(v) => {
                let i = choose|i: int| 0 <= i < rest.len() && rest[i] == (name, v);
                assert(fields[i + 1] == (name, v));
            },
            None => {
                assert forall|i: int| 0 <= i < fields.len() implies (#[trigger] fields[i]).0
                    != name by {
                    if i > 0 {
                        assert(rest[i - 1] == fields[i]);
                    }
                }
            },
        }
    }
}

/// A look-up does not depend on the order of the fields: where no two fields
/// of `a` have the same name and `b` holds the same fields in another order,
/// every name is found with the same value in both.
pub proof fn lemma_lookup_reordered(
    a: Seq<(Seq<char>, JsonView)>,
    b: Seq<(Seq<char>, JsonView)>,
    name: Seq<char>,
)
    requires
        distinct_names(a),
        a.to_multiset() == b.to_multiset(),
    ensures
        lookup(a, name) == lookup(b, name),
{
    broadcast use vstd::seq_lib::group_to_multiset_ensures;

    lemma_lookup_member(a, name);
    lemma_lookup_member(b, name);
    match (lookup(a, name), lookup(b, name)) {
        (Some(v), Some(w)) => {
            // both fields stand in `a`, under one name
            assert(b.to_multiset().count((name, w)) > 0);
            let i = choose|i: int| 0 <= i < a.len() && a[i] == (name, v);
            let j = choose|j: int| 0 <= j < a.len() && a[j] == (name, w);
            assert(i == j);
        },
        (Some(v), None) => {
            assert(a.to_multiset().count((name, v)) > 0);
            assert(b.contains((name, v)));
        },
        (None, Some(w)) => {
            assert(b.to_multiset().count((name, w)) > 0);
            assert(a.contains((name, w)));
        },
        (None, None) => {},
    }
}

/// Whether `a` and `b` are the same JSON value: equal but for the order in
/// which their objects hold their fields. An object with two fields of one
/// name is the same as nothing.
pub open spec fn same_value(a: JsonView, b: JsonView) -> bool
    decreases a,
{
    match a {
        JsonView::Array(x) => b matches JsonView::Array(y) && x.len() == y.len() && forall|i: int|
            0 <= i < x.len() ==> same_value(#[trigger] x[i], y[i]),
        JsonView::Object(x) => b matches JsonView::Object(y) && x.len() == y.len()
            && distinct_names(x) && distinct_names(y) && forall|i: int|
            #![trigger x[i]]
            0 <= i < x.len() ==> exists|j: int|
                0 <= j < y.len() && (#[trigger] y[j]).0 == x[i].0 && same_value(x[i].1, y[j].1),
        _ => a == b,
    }
}

/// An object of one field is the same value as the object written for that
/// field, where the values are the same.
pub proof fn lemma_same_single(
    name: Seq<char>,
    a: JsonView,
    fields: Seq<(Seq<char>, JsonView)>,
)
    requires
        fields.len() == 1,
        fields[0].0 == name,
        same_value(a, fields[0].1),
    ensures
        same_value(JsonView::Object(seq![(name, a)]), JsonView::Object(fields)),
{
    let x = seq![(name, a)];
    assert forall|i: int| #![trigger x[i]] 0 <= i < x.len() implies exists|j: int|
        0 <= j < fields.len() && (#[trigger] fields[j]).0 == x[i].0 && same_value(
            x[i].1,
            fields[j].1,
        ) by {
        assert(fields[0].0 == x[i].0);
    }
}

/// An object of two fields, in which two different names are found, is the
/// same value as the object written for those two names, where the values
/// are the same.
pub proof fn lemma_same_pair(
    first: Seq<char>,
    a: JsonView,
    second: Seq<char>,
    b: JsonView,
    fields: Seq<(Seq<char>, JsonView)>,
)
    requires
        fields.len() == 2,
        first != second,
        lookup(fields, first) matches Some(v) && same_value(a, v),
        lookup(fields, second) matches Some(w) && same_value(b, w),
    ensures
        same_value(JsonView::Object(seq![(first, a), (second, b)]), JsonView::Object(fields)),
{
    let v = lookup(fields, first)->0;
    let w = lookup(fields, second)->0;
    lemma_lookup_member(fields, first);
    lemma_lookup_member(fields, second);
    let m = choose|m: int| 0 <= m < fields.len() && fields[m] == (first, v);
    let n = choose|n: int| 0 <= n < fields.len() && fields[n] == (second, w);
    assert(m != n);
    let x = seq![(first, a), (second, b)];
    assert(distinct_names(fields)) by {
        assert(fields[0].0 != fields[1].0);
    }
    assert forall|i: int| #![trigger x[i]] 0 <= i < x.len() implies exists|j: int|
        0 <= j < fields.len() && (#[trigger] fields[j]).0 == x[i].0 && same_value(
            x[i].1,
            fields[j].1,
        ) by {
        if i == 0 {
            assert(fields[m].0 == x[i].0);
        } else {
            assert(fields[n].0 == x[i].0);
        }
    }
}

impl JsonView {
    /// The value of the field `name`, where this is an object that has one.
    pub open spec fn field(self, name: Seq<char>) -> Option<JsonView> {
        match self {
            JsonView::Object(fields) => lookup(fields, name),
            _ => None,
        }
    }
}

/// The bytes of `null`.
pub open spec fn null_text() -> Seq<u8> {
    seq![0x6eu8, 0x75u8, 0x6cu8, 0x6cu8]
}

/// The bytes of `true`.
pub open spec fn true_text() -> Seq<u8> {
    seq![0x74u8, 0x72u8, 0x75u8, 0x65u8]
}

/// The bytes of `false`.
pub open spec fn false_text() -> Seq<u8> {
    seq![0x66u8, 0x61u8, 0x6cu8, 0x73u8, 0x65u8]
}

/// The ASCII code of `-`.
pub const MINUS: u8 = 0x2d;

/// The ASCII code of `,`.
pub const COMMA: u8 = 0x2c;

/// The ASCII code of `:`.
pub const COLON: u8 = 0x3a;

/// The ASCII code of `[`.
pub const OPEN_BRACKET: u8 = 0x5b;

/// The ASCII code of `]`.
pub const CLOSE_BRACKET: u8 = 0x5d;

/// The ASCII code of `{`.
pub const OPEN_BRACE: u8 = 0x7b;

/// The ASCII code of `}`.
pub const CLOSE_BRACE: u8 = 0x7d;

/// The decimal text of a signed integer.
pub open spec fn signed_text(n: int) -> Seq<u8> {
    if n < 0 {
        seq![MINUS] + decimal((-n) as nat)
    } else {
        decimal(n as nat)
    }
}

/// The compact JSON text of a value: no white space, the items of an array
/// and the fields of an object in their order.
pub open spec fn json_text(v: JsonView) -> Seq<u8>
    decreases v,
{
    match v {
        JsonView::Null => null_text(),
        JsonView::Bool(b) => if b {
            true_text()
        } else {
            false_text()
        },
        JsonView::PosInt(n) => decimal(n as nat),
        JsonView::NegInt(n) => signed_text(n as int),
        JsonView::Real(text) => encode_utf8(text),
        JsonView::Text(text) => json_string_text(text),
        JsonView::Array(items) => seq![OPEN_BRACKET] + items_text(items) + seq![CLOSE_BRACKET],
        JsonView::Object(fields) => seq![OPEN_BRACE] + fields_text(fields) + seq![CLOSE_BRACE],
    }
}

/// The texts of `items`, separated by commas.
pub open spec fn items_text(items: Seq<JsonView>) -> Seq<u8>
    decreases items,
{
    if items.len() == 0 {
        Seq::<u8>::empty()
    } else if items.len() == 1 {
        json_text(items[0])
    } else {
        items_text(items.drop_last()) + seq![COMMA] + json_text(items.last())
    }
}

/// The text of one field: its quoted name, a colon, its value.
pub open spec fn field_text(field: (Seq<char>, JsonView)) -> Seq<u8>
    decreases field,
{
    json_string_text(field.0) + seq![COLON] + json_text(field.1)
}

/// The texts of `fields`, separated by commas.
pub open spec fn fields_text(fields: Seq<(Seq<char>, JsonView)>) -> Seq<u8>
    decreases fields,
{
    if fields.len() == 0 {
        Seq::<u8>::empty()
    } else if fields.len() == 1 {
        field_text(fields[0])
    } else {
        fields_text(fields.drop_last()) + seq![COMMA] + field_text(fields.last())
    }
}

/// `serde_json::from_slice`, read as a `serde_json::Value` and turned into a
/// [`Json`] by [`from_value`]: the document of the text, or the error that
/// the parser reports.
#[verifier::external_body]
fn read_document(bytes: &[u8]) -> (r: Result<Json, serde_json::Error>)
    ensures
        match r {
            Ok(doc) => json_document(bytes@) == Some(doc@),
            Err(_) => json_document(bytes@) is None,
        },
{
    serde_json::from_slice::<Value>(bytes).map(|value| from_value(&value))
}

/// The [`Json`] that holds what a `serde_json::Value` holds, variant by
/// variant. A number becomes what `Number::as_u64` gives, else what
/// `Number::as_i64` gives, else its text; the fields of an object come in
/// the order in which `serde_json::Map::iter` hands them out.
#[verifier::external_body]
fn from_value(value: &Value) -> Json {
    match value {
        Value::Null => Json::Null,
        Value::Bool(b) => Json::Bool(*b),
        Value::Number(n) => match (n.as_u64(), n.as_i64()) {
            (Some(u), _) => Json::PosInt(u),
            (None, Some(i)) => Json::NegInt(i),
            (None, None) => Json::Real(n.to_string()),
        },
        Value::String(s) => Json::Text(s.clone()),
        Value::Array(a) => Json::Array(a.iter().map(from_value).collect()),
        Value::Object(m) => Json::Object(m.iter().map(|(k, v)| (k.clone(), from_value(v))).collect()),
    }
}

/// The lower-case hexadecimal digit of a value below sixteen.
pub fn write_hex(n: u8) -> (r: u8)
    requires
        n < 16,
    ensures
        r == hex_digit(n as int),
{
    if n < 10 {
        0x30 + n
    } else {
        0x61 + (n - 10)
    }
}

/// Appends a byte of a string to `out` as it stands in JSON text.
fn push_escaped(out: &mut Vec<u8>, b: u8)
    ensures
        final(out)@ == old(out)@ + escaped(b),
{
    if b == QUOTE || b == BACKSLASH {
        out.push(BACKSLASH);
        out.push(b);
    } else if b == 0x08 {
        out.push(BACKSLASH);
        out.push(0x62);
    } else if b == 0x09 {
        out.push(BACKSLASH);
        out.push(0x74);
    } else if b == 0x0a {
        out.push(BACKSLASH);
        out.push(0x6e);
    } else if b == 0x0c {
        out.push(BACKSLASH);
        out.push(0x66);
    } else if b == 0x0d {
        out.push(BACKSLASH);
        out.push(0x72);
    } else if b < 0x20 {
        out.push(BACKSLASH);
        out.push(0x75);
        out.push(0x30);
        out.push(0x30);
        out.push(write_hex(b / 16));
        out.push(write_hex(b % 16));
    } else {
        out.push(b);
    }
    assert(out@ =~= old(out)@ + escaped(b));
}

/// Appends the JSON text of the string `s` to `out`.
pub fn write_quoted(out: &mut Vec<u8>, s: &str)
    ensures
        final(out)@ == old(out)@ + json_string_text(s@),
{
    let bytes = s.as_bytes();
    out.push(QUOTE);
    let mut i: usize = 0;
    assert(bytes@.take(0) =~= Seq::<u8>::empty());
    while i < bytes.len()
        invariant
            i <= bytes@.len(),
            bytes@ == encode_utf8(s@),
            out@ == old(out)@ + seq![QUOTE] + escaped_text(bytes@.take(i as int)),
        decreases bytes@.len() - i,
    {
        assert(bytes@.take(i + 1).drop_last() =~= bytes@.take(i as int));
        push_escaped(out, bytes[i]);
        i = i + 1;
    }
    assert(bytes@.take(i as int) =~= bytes@);
    out.push(QUOTE);
    assert(out@ =~= old(out)@ + json_string_text(s@));
}

impl Clone for Json {
    fn clone(&self) -> (r: Json)
        ensures
            r@ == self@,
        decreases self,
    {
        match self {
            Json::Null => Json::Null,
            Json::Bool(b) => Json::Bool(*b),
            Json::PosInt(n) => Json::PosInt(*n),
            Json::NegInt(n) => Json::NegInt(*n),
            Json::Real(text) => Json::Real(text.clone()),
            Json::Text(text) => Json::Text(text.clone()),
            Json::Array(items) => {
                let mut copy: Vec<Json> = Vec::new();
                let mut i: usize = 0;
                while i < items.len()
                    invariant
                        self is Array,
                        self->Array_0 == *items,
                        i <= items.len(),
                        copy.len() == i,
                        forall|j: int| 0 <= j < i ==> copy[j]@ == items[j]@,
                    decreases items.len() - i,
                {
                    copy.push(items[i].clone());
                    i = i + 1;
                }
                let r = Json::Array(copy);
                assert(r@->Array_0 =~= self@->Array_0);
                r
            },
            Json::Object(fields) => {
                let mut copy: Vec<(String, Json)> = Vec::new();
                let mut i: usize = 0;
                while i < fields.len()
                    invariant
                        self is Object,
                        self->Object_0 == *fields,
                        i <= fields.len(),
                        copy.len() == i,
                        forall|j: int|
                            0 <= j < i ==> copy[j].0@ == fields[j].0@ && copy[j].1@ == fields[j].1@,
                    decreases fields.len() - i,
                {
                    let field = &fields[i];
                    copy.push((field.0.clone(), field.1.clone()));
                    i = i + 1;
                }
                let r = Json::Object(copy);
                assert(r@->Object_0 =~= self@->Object_0);
                r
            },
        }
    }
}

impl Json {
    /// The array of `items`.
    pub fn array(items: Vec<Json>) -> (r: Json)
        ensures
            r@ == JsonView::Array(item_views(items@)),
    {
        let r = Json::Array(items);
        proof {
            lemma_array_view(r);
            assert(r@->Array_0 =~= item_views(items@));
        }
        r
    }

    /// The object of `fields`, in their order.
    pub fn object(fields: Vec<(String, Json)>) -> (r: Json)
        ensures
            r@ == JsonView::Object(field_views(fields@)),
    {
        let r = Json::Object(fields);
        proof {
            lemma_object_view(r);
            assert(r@->Object_0 =~= field_views(fields@));
        }
        r
    }

    /// The items of the value, where it is an array.
    pub fn items(&self) -> (r: Option<&Vec<Json>>)
        ensures
            match r {
                Some(items) => self@ == JsonView::Array(item_views(items@)),
                None => !(self@ is Array),
            },
    {
        match self {
            Json::Array(items) => {
                proof {
                    lemma_array_view(*self);
                    assert(self@->Array_0 =~= item_views(items@));
                }
                Some(items)
            },
            _ => None,
        }
    }

    /// Reads a JSON text.
    pub fn parse(bytes: &[u8]) -> (r: Result<Json, serde_json::Error>)
        ensures
            match r {
                Ok(doc) => json_document(bytes@) == Some(doc@),
                Err(_) => json_document(bytes@) is None,
            },
    {
        read_document(bytes)
    }

    /// The value of the field `name`, where this is an object that has one.
    pub fn get(&self, name: &str) -> (r: Option<&Json>)
        ensures
            match r {
                Some(value) => self@.field(name@) == Some(value@) && decreases_to!(*self => *value),
                None => self@.field(name@) is None,
            },
    {
        match self {
            Json::Object(fields) => {
                let ghost views = self@->Object_0;
                let mut i: usize = 0;
                proof {
                    lemma_object_view(*self);
                }
                assert(views.skip(0) =~= views);
                while i < fields.len()
                    invariant
                        i <= fields.len(),
                        views.len() == fields.len(),
                        forall|j: int|
                            0 <= j < fields.len() ==> views[j] == (fields[j].0@, fields[j].1@),
                        self is Object,
                        self->Object_0 == *fields,
                        self@ == JsonView::Object(views),
                        lookup(views, name@) == lookup(views.skip(i as int), name@),
                    decreases fields.len() - i,
                {
                    let ghost rest = views.skip(i as int);
                    assert(rest.drop_first() =~= views.skip(i + 1));
                    if str_eq(fields[i].0.as_str(), name) {
                        return Some(&fields[i].1);
                    }
                    i = i + 1;
                }
                None
            },
            _ => None,
        }
    }

    /// Appends the compact JSON text of the value to `out`.
    pub fn write(&self, out: &mut Vec<u8>)
        ensures
            final(out)@ == old(out)@ + json_text(self@),
        decreases self,
    {
        match self {
            Json::Null => {
                out.push(0x6e);
                out.push(0x75);
                out.push(0x6c);
                out.push(0x6c);
            },
            Json::Bool(b) => {
                if *b {
                    out.push(0x74);
                    out.push(0x72);
                    out.push(0x75);
                    out.push(0x65);
                } else {
                    out.push(0x66);
                    out.push(0x61);
                    out.push(0x6c);
                    out.push(0x73);
                    out.push(0x65);
                }
            },
            Json::PosInt(n) => {
                push_decimal(out, *n);
            },
            Json::NegInt(n) => {
                if *n < 0 {
                    out.push(MINUS);
                    let magnitude: u64 = ((-(*n + 1)) as u64) + 1;
                    push_decimal(out, magnitude);
                } else {
                    push_decimal(out, *n as u64);
                }
            },
            Json::Real(text) => {
                let bytes = text.as_str().as_bytes();
                append_bytes(out, bytes, 0, bytes.len());
            },
            Json::Text(text) => {
                write_quoted(out, text.as_str());
            },
            Json::Array(items) => {
                out.push(OPEN_BRACKET);
                let ghost views = self@->Array_0;
                let mut i: usize = 0;
                proof {
                    lemma_array_view(*self);
                }
                while i < items.len()
                    invariant
                        self is Array,
                        self->Array_0 == *items,
                        i <= items.len(),
                        views.len() == items.len(),
                        forall|j: int| 0 <= j < items.len() ==> views[j] == items[j]@,
                        out@ == old(out)@ + seq![OPEN_BRACKET] + items_text(views.take(i as int)),
                    decreases items.len() - i,
                {
                    let ghost done = views.take(i as int);
                    let ghost next = views.take(i + 1);
                    assert(next.drop_last() =~= done);
                    if i > 0 {
                        out.push(COMMA);
                    }
                    items[i].write(out);
                    i = i + 1;
                }
                assert(views.take(i as int) =~= views);
                out.push(CLOSE_BRACKET);
            },
            Json::Object(fields) => {
                out.push(OPEN_BRACE);
                let ghost views = self@->Object_0;
                let mut i: usize = 0;
                proof {
                    lemma_object_view(*self);
                }
                while i < fields.len()
                    invariant
                        self is Object,
                        self->Object_0 == *fields,
                        i <= fields.len(),
                        views.len() == fields.len(),
                        forall|j: int|
                            0 <= j < fields.len() ==> views[j] == (fields[j].0@, fields[j].1@),
                        out@ == old(out)@ + seq![OPEN_BRACE] + fields_text(views.take(i as int)),
                    decreases fields.len() - i,
                {
                    let ghost done = views.take(i as int);
                    let ghost next = views.take(i + 1);
                    assert(next.drop_last() =~= done);
                    if i > 0 {
                        out.push(COMMA);
                    }
                    let field = &fields[i];
                    write_quoted(out, field.0.as_str());
                    out.push(COLON);
                    field.1.write(out);
                    assert(field_text(next.last()) == json_string_text(field.0@) + seq![COLON]
                        + json_text(field.1@));
                    i = i + 1;
                }
                assert(views.take(i as int) =~= views);
                out.push(CLOSE_BRACE);
            },
        }
    }

    /// The compact JSON text of the value.
    pub fn to_bytes(&self) -> (r: Vec<u8>)
        ensures
            r@ == json_text(self@),
    {
        let mut out: Vec<u8> = Vec::new();
        self.write(&mut out);
        out
    }
}

} // verus!
