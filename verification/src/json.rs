//! JSON values of this crate's own, and their readers.
use crate::text::str_equal;
use vstd::prelude::*;

verus! {

/// A JSON value. Numbers are split as `serde_json` splits them: the integers that fit in `u64`,
/// the negative ones that fit in `i64`, and everything else, whose value nothing here reads.
#[derive(Debug, PartialEq, Eq)]
pub enum Json {
    Null,
    Bool(bool),
    Unsigned(u64),
    Negative(i64),
    Float,
    Str(String),
    Array(Vec<Json>),
    Object(Vec<(String, Json)>),
}

/// What a JSON value holds.
#[verifier::ext_equal]
pub enum JsonView {
    Null,
    Bool(bool),
    Unsigned(u64),
    Negative(i64),
    Float,
    Str(Seq<char>),
    Array(Seq<JsonView>),
    Object(Seq<(Seq<char>, JsonView)>),
}

impl View for Json {
    type V = JsonView;

    open spec fn view(&self) -> JsonView
        decreases self,
    {
        match self {
            Json::Null => JsonView::Null,
            Json::Bool(b) => JsonView::Bool(*b),
            Json::Unsigned(n) => JsonView::Unsigned(*n),
            Json::Negative(n) => JsonView::Negative(*n),
            Json::Float => JsonView::Float,
            Json::Str(s) => JsonView::Str(s@),
            Json::Array(items) => JsonView::Array(
                Seq::new(
                    items@.len(),
                    |i: int|
                        if 0 <= i < items@.len() {
                            items@[i].view()
                        } else {
                            JsonView::Null
                        },
                ),
            ),
            Json::Object(fields) => JsonView::Object(
                Seq::new(
                    fields@.len(),
                    |i: int|
                        if 0 <= i < fields@.len() {
                            (fields@[i].0@, fields@[i].1.view())
                        } else {
                            (seq![], JsonView::Null)
                        },
                ),
            ),
        }
    }
}

// ---------------------------------------------------------------------------------------------
// Reading
// ---------------------------------------------------------------------------------------------

/// What the first field of that name holds.
pub open spec fn find_field(fields: Seq<(Seq<char>, JsonView)>, key: Seq<char>) -> Option<JsonView>
    decreases fields.len(),
{
    if fields.len() == 0 {
        None
    } else if fields[0].0 == key {
        Some(fields[0].1)
    } else {
        find_field(fields.skip(1), key)
    }
}

/// The value behind a key; nothing where the value is no object or lacks the key.
pub open spec fn get(v: JsonView, key: Seq<char>) -> Option<JsonView> {
    match v {
        JsonView::Object(fields) => find_field(fields, key),
        _ => None,
    }
}

/// The value behind a key of an object that stands behind a key.
pub open spec fn get2(v: JsonView, outer: Seq<char>, inner: Seq<char>) -> Option<JsonView> {
    match get(v, outer) {
        Some(o) => get(o, inner),
        None => None,
    }
}

pub open spec fn as_str(v: Option<JsonView>) -> Option<Seq<char>> {
    match v {
        Some(JsonView::Str(s)) => Some(s),
        _ => None,
    }
}

pub open spec fn as_bool(v: Option<JsonView>) -> Option<bool> {
    match v {
        Some(JsonView::Bool(b)) => Some(b),
        _ => None,
    }
}

pub open spec fn as_u64(v: Option<JsonView>) -> Option<u64> {
    match v {
        Some(JsonView::Unsigned(n)) => Some(n),
        _ => None,
    }
}

pub open spec fn as_i64(v: Option<JsonView>) -> Option<i64> {
    match v {
        Some(JsonView::Unsigned(n)) => if n <= i64::MAX {
            Some(n as i64)
        } else {
            None
        },
        Some(JsonView::Negative(n)) => Some(n),
        _ => None,
    }
}

pub open spec fn as_array(v: Option<JsonView>) -> Option<Seq<JsonView>> {
    match v {
        Some(JsonView::Array(items)) => Some(items),
        _ => None,
    }
}

/// What an optional reference to a value holds.
pub open spec fn opt_view(v: Option<&Json>) -> Option<JsonView> {
    match v {
        Some(j) => Some(j@),
        None => None,
    }
}

/// What the values of a list hold.
pub open spec fn items_view(items: Seq<Json>) -> Seq<JsonView> {
    items.map_values(|j: Json| j@)
}

/// What the fields of an object hold.
pub open spec fn fields_view(fields: Seq<(String, Json)>) -> Seq<(Seq<char>, JsonView)> {
    fields.map_values(|f: (String, Json)| (f.0@, f.1@))
}

pub proof fn lemma_view(j: Json)
    ensures
        j matches Json::Array(items) ==> j@ == JsonView::Array(items_view(items@)),
        j matches Json::Object(fields) ==> j@ == JsonView::Object(fields_view(fields@)),
{
    reveal_with_fuel(<Json as View>::view, 2);
    match j {
        Json::Array(items) => {
            assert(j@->Array_0 =~= items_view(items@));
        },
        Json::Object(fields) => {
            assert(j@->Object_0 =~= fields_view(fields@));
        },
        _ => {},
    }
}

pub open spec fn keys_differ(fields: Seq<(Seq<char>, JsonView)>) -> bool {
    forall|i: int, j: int|
        0 <= i < j < fields.len() ==> #[trigger] fields[i].0 != #[trigger] fields[j].0
}

/// Where no two keys are equal, every field is found under its key.
pub proof fn lemma_find_field(fields: Seq<(Seq<char>, JsonView)>, i: int)
    requires
        keys_differ(fields),
        0 <= i < fields.len(),
    ensures
        find_field(fields, fields[i].0) == Some(fields[i].1),
    decreases fields.len(),
{
    if i > 0 {
        let rest = fields.skip(1);
        assert(fields[0].0 != fields[i].0);
        assert(rest[i - 1] == fields[i]);
        assert forall|a: int, b: int| 0 <= a < b < rest.len() implies #[trigger] rest[a].0
            != #[trigger] rest[b].0 by {
            assert(fields[a + 1].0 != fields[b + 1].0);
        }
        lemma_find_field(rest, i - 1);
    }
}

/// A key that no field has is not found.
pub proof fn lemma_find_nothing(fields: Seq<(Seq<char>, JsonView)>, key: Seq<char>)
    requires
        forall|i: int| 0 <= i < fields.len() ==> (#[trigger] fields[i]).0 != key,
    ensures
        find_field(fields, key) is None,
    decreases fields.len(),
{
    if fields.len() > 0 {
        assert(fields[0].0 != key);
        assert forall|i: int| 0 <= i < fields.skip(1).len() implies (#[trigger] fields.skip(1)[i]).0
            != key by {
            assert(fields[i + 1].0 != key);
        }
        lemma_find_nothing(fields.skip(1), key);
    }
}

impl Json {
    /// The value behind `key`.
    pub fn get(&self, key: &str) -> (r: Option<&Json>)
        ensures
            opt_view(r) == get(self@, key@),
    {
        proof {
            lemma_view(*self);
        }
        match self {
            Json::Object(fields) => {
                let ghost all = fields_view(fields@);
                assert(all.skip(0) =~= all);
                for i in 0..fields.len()
                    invariant
                        all == fields_view(fields@),
                        find_field(all.skip(i as int), key@) == find_field(all, key@),
                        self@ == JsonView::Object(all),
                {
                    assert(all.skip(i as int)[0] == (fields@[i as int].0@, fields@[i as int].1@));
                    if str_equal(fields[i].0.as_str(), key) {
                        return Some(&fields[i].1);
                    }
                    assert(all.skip(i as int).skip(1) =~= all.skip(i + 1));
                }
                assert(all.skip(fields@.len() as int) =~= seq![]);
                None
            },
            _ => None,
        }
    }

    pub fn get2(&self, outer: &str, inner: &str) -> (r: Option<&Json>)
        ensures
            opt_view(r) == get2(self@, outer@, inner@),
    {
        match self.get(outer) {
            Some(o) => o.get(inner),
            None => None,
        }
    }

    pub fn is_null(&self) -> (r: bool)
        ensures
            r == (self@ is Null),
    {
        match self {
            Json::Null => true,
            _ => false,
        }
    }

    pub fn is_object(&self) -> (r: bool)
        ensures
            r == (self@ is Object),
    {
        match self {
            Json::Object(_) => true,
            _ => false,
        }
    }
}

/// The text of a string value.
pub fn str_of(v: Option<&Json>) -> (r: Option<String>)
    ensures
        crate::text::opt_text(r) == as_str(opt_view(v)),
{
    match v {
        Some(Json::Str(s)) => Some(s.clone()),
        _ => None,
    }
}

/// The text of a string value, or `default` where there is none.
pub fn str_or(v: Option<&Json>, default: &str) -> (r: String)
    ensures
        r@ == (match as_str(opt_view(v)) {
            Some(s) => s,
            None => default@,
        }),
{
    match v {
        Some(Json::Str(s)) => s.clone(),
        _ => default.to_owned(),
    }
}

pub fn bool_of(v: Option<&Json>) -> (r: Option<bool>)
    ensures
        r == as_bool(opt_view(v)),
{
    match v {
        Some(Json::Bool(b)) => Some(*b),
        _ => None,
    }
}

pub fn u64_of(v: Option<&Json>) -> (r: Option<u64>)
    ensures
        r == as_u64(opt_view(v)),
{
    match v {
        Some(Json::Unsigned(n)) => Some(*n),
        _ => None,
    }
}

pub fn i64_of(v: Option<&Json>) -> (r: Option<i64>)
    ensures
        r == as_i64(opt_view(v)),
{
    match v {
        Some(Json::Unsigned(n)) => if *n <= i64::MAX as u64 {
            Some(*n as i64)
        } else {
            None
        },
        Some(Json::Negative(n)) => Some(*n),
        _ => None,
    }
}

pub fn array_of(v: Option<&Json>) -> (r: Option<&Vec<Json>>)
    ensures
        r is Some <==> as_array(opt_view(v)) is Some,
        r matches Some(items) ==> as_array(opt_view(v)) == Some(items_view(items@)),
{
    match v {
        Some(j) => {
            proof {
                lemma_view(*j);
            }
            match j {
                Json::Array(items) => Some(items),
                _ => None,
            }
        },
        _ => None,
    }
}

// ---------------------------------------------------------------------------------------------
// Building
// ---------------------------------------------------------------------------------------------

/// Adds a field behind the others.
pub fn put(fields: &mut Vec<(String, Json)>, key: &str, value: Json)
    ensures
        fields_view(final(fields)@) == fields_view(old(fields)@).push((key@, value@)),
{
    fields.push((key.to_owned(), value));
    assert(fields_view(fields@) =~= fields_view(old(fields)@).push((key@, value@)));
}

pub fn object(fields: Vec<(String, Json)>) -> (r: Json)
    ensures
        r@ == JsonView::Object(fields_view(fields@)),
{
    let r = Json::Object(fields);
    proof {
        lemma_view(r);
    }
    r
}

pub fn array(items: Vec<Json>) -> (r: Json)
    ensures
        r@ == JsonView::Array(items_view(items@)),
{
    let r = Json::Array(items);
    proof {
        lemma_view(r);
    }
    r
}

pub fn text(s: &str) -> (r: Json)
    ensures
        r@ == JsonView::Str(s@),
{
    Json::Str(s.to_owned())
}

pub fn text_or_null(s: &Option<String>) -> (r: Json)
    ensures
        r@ == opt_str(crate::text::opt_text(*s)),
{
    match s {
        Some(s) => Json::Str(s.clone()),
        None => Json::Null,
    }
}

pub fn u64_or_null(n: Option<u64>) -> (r: Json)
    ensures
        r@ == opt_num(n),
{
    match n {
        Some(n) => Json::Unsigned(n),
        None => Json::Null,
    }
}

pub fn bool_or_null(b: Option<bool>) -> (r: Json)
    ensures
        r@ == opt_flag(b),
{
    match b {
        Some(b) => Json::Bool(b),
        None => Json::Null,
    }
}

pub open spec fn opt_str(s: Option<Seq<char>>) -> JsonView {
    match s {
        Some(s) => JsonView::Str(s),
        None => JsonView::Null,
    }
}

pub open spec fn opt_num(n: Option<u64>) -> JsonView {
    match n {
        Some(n) => JsonView::Unsigned(n),
        None => JsonView::Null,
    }
}

pub open spec fn opt_flag(b: Option<bool>) -> JsonView {
    match b {
        Some(b) => JsonView::Bool(b),
        None => JsonView::Null,
    }
}

// ---------------------------------------------------------------------------------------------
// Text
// ---------------------------------------------------------------------------------------------

#[verifier::external_type_specification]
#[verifier::external_body]
pub struct ExSerdeValue(serde_json::Value);

/// What `serde_json::from_str` reads from a text as a `serde_json::Value`; nothing where it
/// answers with an error.
pub uninterp spec fn json_value(text: Seq<char>) -> Option<JsonView>;

/// What the error of `serde_json::from_str` says of a text that it cannot read.
pub uninterp spec fn json_fault(text: Seq<char>) -> Seq<char>;

/// Copies a `serde_json::Value` variant by variant. Nothing is claimed of the copy: callers
/// learn what they read from the reader that handed the value out.
#[verifier::external_body]
pub(crate) fn json_of(value: serde_json::Value) -> (r: Json) {
    match value {
        serde_json::Value::Null => Json::Null,
        serde_json::Value::Bool(b) => Json::Bool(b),
        serde_json::Value::Number(n) => match (n.as_u64(), n.as_i64()) {
            (Some(n), _) => Json::Unsigned(n),
            (None, Some(n)) => Json::Negative(n),
            (None, None) => Json::Float,
        },
        serde_json::Value::String(s) => Json::Str(s),
        serde_json::Value::Array(items) => Json::Array(items.into_iter().map(json_of).collect()),
        serde_json::Value::Object(map) => {
            Json::Object(map.into_iter().map(|(key, value)| (key, json_of(value))).collect())
        },
    }
}

/// `serde_json::from_str` on a whole text, into a value of any shape, and the words of its error
/// where it answers with one. Both depend on the text alone.
#[verifier::external_body]
pub(crate) fn read_json(text: &str) -> (r: Result<Json, String>)
    ensures
        match r {
            Ok(v) => json_value(text@) == Some(v@),
            Err(fault) => json_value(text@) is None && fault@ == json_fault(text@),
        },
{
    serde_json::from_str::<serde_json::Value>(text).map(json_of).map_err(|e| e.to_string())
}

/// Reads a JSON text. An error says only that the text is no JSON.
pub fn parse_json(text: &str) -> (r: Option<Json>)
    ensures
        opt_view(match r {
            Some(v) => Some(&v),
            None => None,
        }) == json_value(text@),
{
    match read_json(text) {
        Ok(v) => Some(v),
        Err(_) => None,
    }
}

} // verus!
