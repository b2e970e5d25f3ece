//! JSON values and the operations on them that do not depend on their meaning.

use crate::ordered::{ascending, entry_views, lemma_to_map, to_map};
use crate::text::str_equal;
use serde_json::Number;
use serde_json::Value;
use vstd::prelude::*;

verus! {

#[verifier::external_type_specification]
#[verifier::external_body]
pub struct ExValue(serde_json::Value);

#[verifier::external_type_specification]
#[verifier::external_body]
pub struct ExNumber(serde_json::Number);

#[verifier::external_type_specification]
#[verifier::external_body]
pub struct ExError(serde_json::Error);

/// Whether `serde_json` holds a number as a floating-point value.
pub uninterp spec fn number_is_float(number: Number) -> bool;

/// What `serde_json` prints for a number.
pub uninterp spec fn number_text(number: Number) -> Seq<char>;

/// The JSON value that a `serde_json::Value` holds.
pub uninterp spec fn value_model(value: Value) -> JsonView;

/// The compact JSON text that `serde_json` writes for a value.
pub uninterp spec fn json_text(value: JsonView) -> Seq<u8>;

/// A number that `serde_json` holds as a floating-point value.
#[derive(Debug, PartialEq)]
pub struct FloatNumber {
    number: Number,
}

impl View for FloatNumber {
    type V = Number;

    closed spec fn view(&self) -> Number {
        self.number
    }
}

/// A JSON value. An object is a list of fields; where two fields share a key the
/// later one counts.
#[derive(Debug, PartialEq)]
pub enum Json {
    Null,
    Bool(bool),
    Unsigned(u64),
    Signed(i64),
    Float(FloatNumber),
    Text(String),
    Array(Vec<Json>),
    Object(Vec<(String, Json)>),
}

/// What a JSON value says, with integers of either width taken as numbers.
pub enum JsonView {
    Null,
    Bool(bool),
    Integer(int),
    Float(Number),
    Text(Seq<char>),
    Array(Seq<JsonView>),
    Object(Seq<(Seq<char>, JsonView)>),
}

impl View for Json {
    type V = JsonView;

    open spec fn view(&self) -> JsonView {
        json_model(*self)
    }
}

/// What a value says.
pub open spec fn json_model(json: Json) -> JsonView
    decreases json,
{
    match json {
        Json::Null => JsonView::Null,
        Json::Bool(b) => JsonView::Bool(b),
        Json::Unsigned(n) => JsonView::Integer(n as int),
        Json::Signed(n) => JsonView::Integer(n as int),
        Json::Float(f) => JsonView::Float(f@),
        Json::Text(s) => JsonView::Text(s@),
        Json::Array(items) => JsonView::Array(
            Seq::new(
                items@.len(),
                |i: int|
                    if 0 <= i < items@.len() {
                        json_model(items@[i])
                    } else {
                        JsonView::Null
                    },
            ),
        ),
        Json::Object(fields) => JsonView::Object(
            Seq::new(
                fields@.len(),
                |i: int|
                    if 0 <= i < fields@.len() {
                        field_model(fields@[i])
                    } else {
                        arbitrary()
                    },
            ),
        ),
    }
}

/// What a field says.
pub open spec fn field_model(field: (String, Json)) -> (Seq<char>, JsonView)
    decreases field,
{
    (field.0@, json_model(field.1))
}

/// The views of a list of values.
pub open spec fn json_views(items: Seq<Json>) -> Seq<JsonView> {
    Seq::new(items.len(), |i: int| items[i]@)
}

/// An array's view is made of its items' views.
pub broadcast proof fn lemma_array_view(items: Vec<Json>)
    ensures
        #[trigger] Json::Array(items)@ == JsonView::Array(json_views(items@)),
{
    assert(Json::Array(items)@->Array_0 =~= json_views(items@));
}

/// An object's view is made of its fields' views.
pub broadcast proof fn lemma_object_view(fields: Vec<(String, Json)>)
    ensures
        #[trigger] Json::Object(fields)@ == JsonView::Object(entry_views(fields@)),
{
    let whole = Json::Object(fields);
    let seen = whole@->Object_0;
    assert forall|i: int| 0 <= i < fields@.len() implies seen[i] == #[trigger] entry_views(fields@)[i] by {
        assert(field_model(fields@[i]) == (fields@[i].0@, fields@[i].1@));
    }
    assert(seen =~= entry_views(fields@));
}

/// One level of a `serde_json::Value`.
pub enum ValueNode {
    Null,
    Bool(bool),
    Unsigned(u64),
    Signed(i64),
    Float(Number),
    Text(String),
    Array(Vec<Value>),
    Object(Vec<(String, Value)>),
}

/// The JSON value that one level and the values below it make up.
pub open spec fn node_model(node: ValueNode) -> JsonView {
    match node {
        ValueNode::Null => JsonView::Null,
        ValueNode::Bool(b) => JsonView::Bool(b),
        ValueNode::Unsigned(n) => JsonView::Integer(n as int),
        ValueNode::Signed(n) => JsonView::Integer(n as int),
        ValueNode::Float(n) => JsonView::Float(n),
        ValueNode::Text(s) => JsonView::Text(s@),
        ValueNode::Array(items) => JsonView::Array(
            Seq::new(items@.len(), |i: int| value_model(items@[i])),
        ),
        ValueNode::Object(fields) => JsonView::Object(
            Seq::new(fields@.len(), |i: int| (fields@[i].0@, value_model(fields@[i].1))),
        ),
    }
}

/// Takes a `serde_json::Value` apart by its variants: the same scalar, the same items
/// in the same order, or the same fields in the order in which the map yields them. A
/// number comes out as an integer where `as_u64` or `as_i64` gives one, and as a
/// floating-point number otherwise.
#[verifier::external_body]
fn open_value(value: Value) -> (node: ValueNode)
    ensures
        value_model(value) == node_model(node),
        node matches ValueNode::Float(n) ==> number_is_float(n),
{
    match value {
        Value::Null => ValueNode::Null,
        Value::Bool(b) => ValueNode::Bool(b),
        Value::Number(n) => match (n.as_u64(), n.as_i64()) {
            (Some(u), _) => ValueNode::Unsigned(u),
            (None, Some(i)) => ValueNode::Signed(i),
            (None, None) => ValueNode::Float(n),
        },
        Value::String(s) => ValueNode::Text(s),
        Value::Array(items) => ValueNode::Array(items),
        Value::Object(fields) => ValueNode::Object(fields.into_iter().collect()),
    }
}

/// Puts a `serde_json::Value` together by its variants. The fields of an object come in
/// ascending key order, each key once, so that the map keeps them all and yields them in
/// that order.
#[verifier::external_body]
fn close_value(node: ValueNode) -> (value: Value)
    requires
        node matches ValueNode::Float(n) ==> number_is_float(n),
        node_model(node) matches JsonView::Object(fields) ==> ascending::<String, JsonView>(fields),
    ensures
        value_model(value) == node_model(node),
{
    match node {
        ValueNode::Null => Value::Null,
        ValueNode::Bool(b) => Value::Bool(b),
        ValueNode::Unsigned(n) => Value::from(n),
        ValueNode::Signed(n) => Value::from(n),
        ValueNode::Float(n) => Value::Number(n),
        ValueNode::Text(s) => Value::String(s),
        ValueNode::Array(items) => Value::Array(items),
        ValueNode::Object(fields) => Value::Object(fields.into_iter().collect()),
    }
}

/// A text of one line: no byte of it is a newline.
pub open spec fn is_line(bytes: Seq<u8>) -> bool {
    forall|i: int| 0 <= i < bytes.len() ==> #[trigger] bytes[i] != 10
}

/// A JSON value that a `serde_json::Value` can hold: integers of 64 bits, floating-point numbers
/// that are such, and objects that list their keys in ascending order, each once.
pub open spec fn is_value(json: JsonView) -> bool
    decreases json,
{
    match json {
        JsonView::Integer(n) => i64::MIN <= n <= u64::MAX,
        JsonView::Float(n) => number_is_float(n),
        JsonView::Array(items) => forall|i: int|
            0 <= i < items.len() ==> is_value(#[trigger] items[i]),
        JsonView::Object(fields) => {
            &&& ascending::<String, JsonView>(fields)
            &&& forall|i: int| 0 <= i < fields.len() ==> is_value((#[trigger] fields[i]).1)
        },
        _ => true,
    }
}

/// No other value has the text.
pub open spec fn text_tells(text: Seq<u8>, json: JsonView) -> bool {
    forall|other: JsonView|
        is_value(other) && #[trigger] json_text(other) == text ==> other == json
}

/// `serde_json::to_vec` on a value. It cannot fail there, since every key is a string
/// and the writer is a vector; what it writes depends on the JSON value alone. It breaks no
/// line, and escapes the newlines within strings. No other value is written so: quotes and
/// backslashes within strings are escaped, an integer has no decimal point or exponent and a
/// floating-point number has one, and of that the decimal is written that stands for it alone.
#[verifier::external_body]
fn write_value(value: &Value) -> (r: Result<Vec<u8>, serde_json::Error>)
    ensures
        r is Ok,
        r->Ok_0@ == json_text(value_model(*value)),
        is_line(r->Ok_0@),
        text_tells(r->Ok_0@, value_model(*value)),
{
    serde_json::to_vec(value)
}

/// `Clone` of `serde_json::Number`: the same number.
pub assume_specification[ <serde_json::Number as std::clone::Clone>::clone ](number: &Number) -> (r:
    Number)
    ensures
        r == *number,
;

/// `Number::is_f64`.
#[verifier::external_body]
fn is_float(number: &Number) -> (r: bool)
    ensures
        r == number_is_float(*number),
{
    number.is_f64()
}

/// The JSON value that `serde_json` reads from a text, where the text is one.
pub uninterp spec fn parsed_json(text: Seq<char>) -> Option<JsonView>;

/// `serde_json::from_str`, with no more said of an error than that there is one. What is
/// read depends on the text alone.
#[verifier::external_body]
fn read_value(text: &str) -> (r: Option<Value>)
    ensures
        match r {
            Some(value) => parsed_json(text@) == Some(value_model(value)),
            None => parsed_json(text@) is None,
        },
{
    serde_json::from_str(text).ok()
}

/// The JSON value that a text is, where it is one.
pub fn parse_json(text: &str) -> (r: Option<Json>)
    ensures
        match r {
            Some(json) => parsed_json(text@) == Some(json@),
            None => parsed_json(text@) is None,
        },
{
    match read_value(text) {
        Some(value) => Some(from_value(value)),
        None => None,
    }
}

/// `Display` of `serde_json::Number`.
#[verifier::external_body]
fn print_number(number: &Number) -> (r: String)
    ensures
        r@ == number_text(*number),
{
    number.to_string()
}

impl FloatNumber {
    #[verifier::type_invariant]
    spec fn inv(self) -> bool {
        number_is_float(self.number)
    }

    /// Wraps a number, provided that it is a floating-point one.
    pub fn new(number: Number) -> (r: Option<FloatNumber>)
        ensures
            match r {
                Some(f) => number_is_float(number) && f@ == number,
                None => !number_is_float(number),
            },
    {
        if is_float(&number) {
            Some(FloatNumber { number })
        } else {
            None
        }
    }

    /// A copy.
    pub fn copy(&self) -> (r: FloatNumber)
        ensures
            r@ == self@,
    {
        proof {
            use_type_invariant(self);
        }
        FloatNumber { number: self.number.clone() }
    }

    /// The number as printed.
    pub fn text(&self) -> (r: String)
        ensures
            r@ == number_text(self@),
    {
        print_number(&self.number)
    }
}

/// Turns a `serde_json::Value` into the value that it holds.
pub fn from_value(value: Value) -> (json: Json)
    ensures
        json@ == value_model(value),
    decreases value_model(value),
{
    broadcast use {lemma_array_view, lemma_object_view};

    match open_value(value) {
        ValueNode::Null => Json::Null,
        ValueNode::Bool(b) => Json::Bool(b),
        ValueNode::Unsigned(n) => Json::Unsigned(n),
        ValueNode::Signed(n) => Json::Signed(n),
        ValueNode::Float(n) => Json::Float(FloatNumber { number: n }),
        ValueNode::Text(s) => Json::Text(s),
        ValueNode::Array(items) => {
            let ghost models = value_model(value)->Array_0;
            let mut out: Vec<Json> = Vec::new();
            for item in it: items
                invariant
                    value_model(value) is Array,
                    models == value_model(value)->Array_0,
                    it.seq() == items@,
                    models =~= Seq::new(items@.len(), |i: int| value_model(items@[i])),
                    out@.len() == it.index(),
                    forall|i: int| 0 <= i < out@.len() ==> (#[trigger] out@[i])@ == models[i],
            {
                proof {
                    assert(value_model(item) == models[it.index()]);
                    assert(decreases_to!(value_model(value) => models));
                }
                out.push(from_value(item));
            }
            assert(json_views(out@) =~= models);
            Json::Array(out)
        },
        ValueNode::Object(fields) => {
            let ghost models = value_model(value)->Object_0;
            let mut out: Vec<(String, Json)> = Vec::new();
            for field in it: fields
                invariant
                    value_model(value) is Object,
                    models == value_model(value)->Object_0,
                    it.seq() == fields@,
                    models =~= Seq::new(fields@.len(), |i: int| (fields@[i].0@, value_model(fields@[i].1))),
                    out@.len() == it.index(),
                    forall|i: int| 0 <= i < out@.len() ==> ((#[trigger] out@[i]).0@, out@[i].1@) == models[i],
            {
                proof {
                    assert((field.0@, value_model(field.1)) == models[it.index()]);
                    assert(decreases_to!(value_model(value) => models));
                    assert(decreases_to!(models => models[it.index()]));
                    assert(decreases_to!(models[it.index()] => models[it.index()].1));
                }
                let (key, inner) = field;
                out.push((key, from_value(inner)));
            }
            assert(entry_views(out@) =~= models);
            Json::Object(out)
        },
    }
}

/// Every object, at any depth, lists its keys in ascending order, each once.
pub open spec fn keys_sorted(json: JsonView) -> bool
    decreases json,
{
    match json {
        JsonView::Array(items) => forall|i: int|
            0 <= i < items.len() ==> keys_sorted(#[trigger] items[i]),
        JsonView::Object(fields) => {
            &&& ascending::<String, JsonView>(fields)
            &&& forall|i: int| 0 <= i < fields.len() ==> keys_sorted((#[trigger] fields[i]).1)
        },
        _ => true,
    }
}

/// Builds the `serde_json::Value` that holds a value with sorted keys.
pub fn to_value(json: &Json) -> (value: Value)
    requires
        keys_sorted(json@),
    ensures
        value_model(value) == json@,
        is_value(json@),
    decreases json@,
{
    broadcast use {lemma_array_view, lemma_object_view};

    match json {
        Json::Null => close_value(ValueNode::Null),
        Json::Bool(b) => close_value(ValueNode::Bool(*b)),
        Json::Unsigned(n) => close_value(ValueNode::Unsigned(*n)),
        Json::Signed(n) => close_value(ValueNode::Signed(*n)),
        Json::Float(f) => {
            proof {
                use_type_invariant(f);
            }
            close_value(ValueNode::Float(f.number.clone()))
        },
        Json::Text(s) => close_value(ValueNode::Text(s.clone())),
        Json::Array(items) => {
            let ghost models = json@->Array_0;
            let mut out: Vec<Value> = Vec::new();
            let mut i: usize = 0;
            while i < items.len()
                invariant
                    0 <= i <= items@.len(),
                    json@ is Array,
                    models == json@->Array_0,
                    models == json_views(items@),
                    keys_sorted(json@),
                    out@.len() == i,
                    forall|j: int| 0 <= j < i ==> value_model(#[trigger] out@[j]) == models[j],
                    forall|j: int| 0 <= j < i ==> is_value(#[trigger] models[j]),
                decreases items@.len() - i,
            {
                proof {
                    assert(items@[i as int]@ == models[i as int]);
                    assert(decreases_to!(json@ => models));
                }
                out.push(to_value(&items[i]));
                i = i + 1;
            }
            let node = ValueNode::Array(out);
            assert(node_model(node)->Array_0 =~= models);
            close_value(node)
        },
        Json::Object(fields) => {
            let ghost models = json@->Object_0;
            let mut out: Vec<(String, Value)> = Vec::new();
            let mut i: usize = 0;
            while i < fields.len()
                invariant
                    0 <= i <= fields@.len(),
                    json@ is Object,
                    models == json@->Object_0,
                    models == entry_views(fields@),
                    keys_sorted(json@),
                    out@.len() == i,
                    forall|j: int|
                        0 <= j < i ==> ((#[trigger] out@[j]).0@, value_model(out@[j].1))
                            == models[j],
                    forall|j: int| 0 <= j < i ==> is_value((#[trigger] models[j]).1),
                decreases fields@.len() - i,
            {
                proof {
                    let m = models[i as int];
                    assert(m == (fields@[i as int].0@, fields@[i as int].1@));
                    assert(decreases_to!(json@ => models));
                    assert(decreases_to!(models => m));
                    assert(decreases_to!(m => m.1));
                }
                out.push((fields[i].0.clone(), to_value(&fields[i].1)));
                i = i + 1;
            }
            let node = ValueNode::Object(out);
            assert(node_model(node)->Object_0 =~= models);
            close_value(node)
        },
    }
}

/// The compact JSON text of a value with sorted keys.
pub fn to_bytes(json: &Json) -> (bytes: Vec<u8>)
    requires
        keys_sorted(json@),
    ensures
        bytes@ == json_text(json@),
        is_line(bytes@),
        is_value(json@),
        text_tells(bytes@, json@),
{
    match write_value(&to_value(json)) {
        Ok(bytes) => bytes,
        Err(_) => Vec::new(),
    }
}

/// The value under a key: an object's last field with that key.
pub open spec fn json_get(json: JsonView, key: Seq<char>) -> Option<JsonView> {
    match json {
        JsonView::Object(fields) => if to_map(fields).contains_key(key) {
            Some(to_map(fields)[key])
        } else {
            None
        },
        _ => None,
    }
}

/// The text of a value that is a text.
pub open spec fn json_str(json: JsonView) -> Option<Seq<char>> {
    match json {
        JsonView::Text(s) => Some(s),
        _ => None,
    }
}

/// The text of a field that is there and is a text.
pub open spec fn json_get_str(json: JsonView, key: Seq<char>) -> Option<Seq<char>> {
    match json_get(json, key) {
        Some(v) => json_str(v),
        None => None,
    }
}

/// The items of a field that is there and is an array.
pub open spec fn json_get_array(json: JsonView, key: Seq<char>) -> Option<Seq<JsonView>> {
    match json_get(json, key) {
        Some(JsonView::Array(items)) => Some(items),
        _ => None,
    }
}

/// The value as an unsigned 64-bit integer.
pub open spec fn json_u64(json: JsonView) -> Option<u64> {
    match json {
        JsonView::Integer(n) => if 0 <= n <= u64::MAX {
            Some(n as u64)
        } else {
            None
        },
        _ => None,
    }
}

/// A field outside `fields` or within it: looking a key up from the end.
proof fn lemma_lookup_from_end(fields: Seq<(Seq<char>, JsonView)>, key: Seq<char>, i: int)
    requires
        0 <= i <= fields.len(),
        forall|j: int| i <= j < fields.len() ==> (#[trigger] fields[j]).0 != key,
    ensures
        i == 0 ==> !to_map(fields).contains_key(key),
        i > 0 && fields[i - 1].0 == key ==> to_map(fields).contains_key(key) && to_map(fields)[key]
            == fields[i - 1].1,
{
    lemma_to_map(fields);
    if to_map(fields).contains_key(key) {
        let k = choose|k: int|
            0 <= k < fields.len() && (#[trigger] fields[k]).0 == key && to_map(fields)[key]
                == fields[k].1 && (forall|j: int|
                k < j < fields.len() ==> (#[trigger] fields[j]).0 != key);
        assert(k < i);
        if i > 0 && fields[i - 1].0 == key && k < i - 1 {
            assert(fields[i - 1].0 != key);
        }
    }
}

impl Json {
    /// A copy.
    pub fn copy(&self) -> (r: Json)
        ensures
            r@ == self@,
        decreases self@,
    {
        broadcast use {lemma_array_view, lemma_object_view};

        match self {
            Json::Null => Json::Null,
            Json::Bool(b) => Json::Bool(*b),
            Json::Unsigned(n) => Json::Unsigned(*n),
            Json::Signed(n) => Json::Signed(*n),
            Json::Float(f) => Json::Float(f.copy()),
            Json::Text(s) => Json::Text(s.clone()),
            Json::Array(items) => {
                let ghost models = self@->Array_0;
                let mut out: Vec<Json> = Vec::new();
                let mut i: usize = 0;
                while i < items.len()
                    invariant
                        0 <= i <= items@.len(),
                        self@ is Array,
                        models == self@->Array_0,
                        models == json_views(items@),
                        out@.len() == i,
                        forall|j: int| 0 <= j < i ==> (#[trigger] out@[j])@ == models[j],
                    decreases items@.len() - i,
                {
                    proof {
                        assert(items@[i as int]@ == models[i as int]);
                        assert(decreases_to!(self@ => models));
                    }
                    out.push(items[i].copy());
                    i = i + 1;
                }
                assert(json_views(out@) =~= models);
                Json::Array(out)
            },
            Json::Object(fields) => {
                let ghost models = self@->Object_0;
                let mut out: Vec<(String, Json)> = Vec::new();
                let mut i: usize = 0;
                while i < fields.len()
                    invariant
                        0 <= i <= fields@.len(),
                        self@ is Object,
                        models == self@->Object_0,
                        models == entry_views(fields@),
                        out@.len() == i,
                        forall|j: int|
                            0 <= j < i ==> ((#[trigger] out@[j]).0@, out@[j].1@) == models[j],
                    decreases fields@.len() - i,
                {
                    proof {
                        let m = models[i as int];
                        assert(m == (fields@[i as int].0@, fields@[i as int].1@));
                        assert(decreases_to!(self@ => models));
                        assert(decreases_to!(models => m));
                        assert(decreases_to!(m => m.1));
                    }
                    out.push((fields[i].0.clone(), fields[i].1.copy()));
                    i = i + 1;
                }
                assert(entry_views(out@) =~= models);
                Json::Object(out)
            },
        }
    }

    /// The value under a key of an object.
    pub fn get(&self, key: &str) -> (r: Option<&Json>)
        ensures
            match r {
                Some(v) => json_get(self@, key@) == Some(v@),
                None => json_get(self@, key@) is None,
            },
    {
        broadcast use {lemma_array_view, lemma_object_view};

        match self {
            Json::Object(fields) => {
                let ghost models = entry_views(fields@);
                let mut i: usize = fields.len();
                while i > 0
                    invariant
                        0 <= i <= fields@.len(),
                        self@ == JsonView::Object(models),
                        models == entry_views(fields@),
                        forall|j: int| i <= j < models.len() ==> (#[trigger] models[j]).0 != key@,
                    decreases i,
                {
                    if str_equal(fields[i - 1].0.as_str(), key) {
                        proof {
                            assert(models[i - 1].0 == key@);
                            lemma_lookup_from_end(models, key@, i as int);
                        }
                        return Some(&fields[i - 1].1);
                    }
                    i = i - 1;
                }
                proof {
                    lemma_lookup_from_end(models, key@, 0);
                }
                None
            },
            _ => None,
        }
    }

    /// The text, where the value is one.
    pub fn as_str(&self) -> (r: Option<&str>)
        ensures
            match r {
                Some(s) => json_str(self@) == Some(s@),
                None => json_str(self@) is None,
            },
    {
        match self {
            Json::Text(s) => Some(s.as_str()),
            _ => None,
        }
    }

    /// The items, where the value is an array.
    pub fn as_array(&self) -> (r: Option<&Vec<Json>>)
        ensures
            match r {
                Some(items) => self@ == JsonView::Array(json_views(items@)),
                None => !(self@ is Array),
            },
    {
        broadcast use lemma_array_view;

        match self {
            Json::Array(items) => Some(items),
            _ => None,
        }
    }

    /// The number, where the value is a non-negative integer.
    pub fn as_u64(&self) -> (r: Option<u64>)
        ensures
            r == json_u64(self@),
    {
        match self {
            Json::Unsigned(n) => Some(*n),
            Json::Signed(n) => if *n >= 0 {
                Some(*n as u64)
            } else {
                None
            },
            _ => None,
        }
    }

    /// Whether the value is an object.
    pub fn is_object(&self) -> (r: bool)
        ensures
            r == self@ is Object,
    {
        matches!(self, Json::Object(_))
    }

    /// Whether the value is an array.
    pub fn is_array(&self) -> (r: bool)
        ensures
            r == self@ is Array,
    {
        matches!(self, Json::Array(_))
    }

    /// Whether the value is null.
    pub fn is_null(&self) -> (r: bool)
        ensures
            r == (self@ == JsonView::Null),
    {
        matches!(self, Json::Null)
    }

    /// The text under a key of an object.
    pub fn get_str(&self, key: &str) -> (r: Option<&str>)
        ensures
            match r {
                Some(s) => json_get_str(self@, key@) == Some(s@),
                None => json_get_str(self@, key@) is None,
            },
    {
        match self.get(key) {
            Some(v) => v.as_str(),
            None => None,
        }
    }

    /// The items under a key of an object.
    pub fn get_array(&self, key: &str) -> (r: Option<&Vec<Json>>)
        ensures
            match r {
                Some(items) => json_get_array(self@, key@) == Some(json_views(items@)),
                None => json_get_array(self@, key@) is None,
            },
    {
        match self.get(key) {
            Some(v) => v.as_array(),
            None => None,
        }
    }
}

impl Clone for Json {
    fn clone(&self) -> (r: Json)
        ensures
            r@ == self@,
    {
        self.copy()
    }
}

} // verus!
