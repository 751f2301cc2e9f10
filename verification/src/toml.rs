//! TOML documents, read into and written from the crate's own values.
use crate::json::{json_of, opt_view, Json, JsonView};
use crate::text::chars_of;
use vstd::prelude::*;

verus! {

#[verifier::external_type_specification]
#[verifier::external_body]
pub struct ExTomlError(basic_toml::Error);

/// What `basic_toml::from_str` reads from a text as a value of any shape; nothing where it
/// answers with an error.
pub uninterp spec fn toml_value(text: Seq<char>) -> Option<JsonView>;

/// What `basic_toml::to_string` writes for a document.
pub uninterp spec fn toml_text(document: JsonView) -> Seq<char>;

/// A value that fits on one line of a document: a text, a flag, or a number that TOML can hold.
pub open spec fn is_scalar(v: JsonView) -> bool {
    match v {
        JsonView::Str(_) => true,
        JsonView::Bool(_) => true,
        JsonView::Unsigned(n) => n <= i64::MAX,
        _ => false,
    }
}

/// A table of scalars, each under a key of its own.
pub open spec fn is_flat(v: JsonView) -> bool {
    match v {
        JsonView::Object(fields) => {
            &&& forall|i: int| 0 <= i < fields.len() ==> is_scalar((#[trigger] fields[i]).1)
            &&& forall|i: int, j: int|
                0 <= i < j < fields.len() ==> #[trigger] fields[i].0 != #[trigger] fields[j].0
        },
        _ => false,
    }
}

/// A document that holds one list of such tables, which is not empty, under one key.
pub open spec fn is_table_list(v: JsonView) -> bool {
    match v {
        JsonView::Object(fields) => fields.len() == 1 && match fields[0].1 {
            JsonView::Array(rows) => rows.len() > 0 && forall|i: int|
                0 <= i < rows.len() ==> is_flat(#[trigger] rows[i]),
            _ => false,
        },
        _ => false,
    }
}

// ---------------------------------------------------------------------------------------------
// How deep a document is nested
// ---------------------------------------------------------------------------------------------

/// How deep a document may be nested. The ones of this crate have two levels.
pub const MAX_NESTING: usize = 64;

/// Where a character of a document stands.
#[derive(Debug, Clone, Copy, PartialEq, Eq, Structural)]
pub enum Place {
    Plain,
    /// In a text in double quotes.
    Quoted,
    /// In such a text, behind a backslash.
    Escaped,
    /// In a text in single quotes.
    Literal,
    Comment,
    /// Behind the start of a text of several lines: where that one ends is not looked at.
    Anywhere,
}

/// Where the next character stands. What is in quotes ends with its line, if not before.
pub open spec fn place_after(s: Seq<char>, i: int, place: Place) -> Place {
    let c = s[i];
    if place == Place::Anywhere {
        Place::Anywhere
    } else if c == '\n' {
        Place::Plain
    } else {
        match place {
            Place::Plain => if (c == '"' || c == '\'') && i + 2 < s.len() && s[i + 1] == c && s[i + 2]
                == c {
                Place::Anywhere
            } else if c == '"' {
                Place::Quoted
            } else if c == '\'' {
                Place::Literal
            } else if c == '#' {
                Place::Comment
            } else {
                Place::Plain
            },
            Place::Quoted => if c == '\\' {
                Place::Escaped
            } else if c == '"' {
                Place::Plain
            } else {
                Place::Quoted
            },
            Place::Escaped => Place::Quoted,
            Place::Literal => if c == '\'' {
                Place::Plain
            } else {
                Place::Literal
            },
            Place::Comment => Place::Comment,
            Place::Anywhere => Place::Anywhere,
        }
    }
}

/// How deep a document is at some character.
pub struct Depth {
    pub place: Place,
    /// The brackets and braces that are open, at least.
    pub open: nat,
    /// The most that were ever open.
    pub deepest: nat,
    /// The dots, each of which may join two parts of a key.
    pub dots: nat,
}

/// A bracket that opens counts wherever it may be one, a bracket that closes only where it must be
/// one.
pub open spec fn depth_after(s: Seq<char>, n: int) -> Depth
    decreases n,
{
    if n <= 0 {
        Depth { place: Place::Plain, open: 0, deepest: 0, dots: 0 }
    } else {
        let d = depth_after(s, n - 1);
        let c = s[n - 1];
        let counts = d.place == Place::Plain || d.place == Place::Anywhere;
        let open = if counts && (c == '[' || c == '{') {
            d.open + 1
        } else if d.place == Place::Plain && (c == ']' || c == '}') && d.open > 0 {
            (d.open - 1) as nat
        } else {
            d.open
        };
        Depth {
            place: place_after(s, n - 1, d.place),
            open,
            deepest: if open > d.deepest {
                open
            } else {
                d.deepest
            },
            dots: if counts && c == '.' {
                d.dots + 1
            } else {
                d.dots
            },
        }
    }
}

/// How deep a document is nested, at most: by brackets and braces, and by the parts of its keys.
pub open spec fn nesting(s: Seq<char>) -> nat {
    let d = depth_after(s, s.len() as int);
    d.deepest + d.dots
}

fn next_place(s: &Vec<char>, i: usize, place: Place) -> (r: Place)
    requires
        i < s@.len(),
    ensures
        r == place_after(s@, i as int, place),
{
    let c = s[i];
    if let Place::Anywhere = place {
        return Place::Anywhere;
    }
    if c == '\n' {
        return Place::Plain;
    }
    match place {
        Place::Plain => {
            let quote = c == '"' || c == '\'';
            if quote && s.len() - i > 2 && s[i + 1] == c && s[i + 2] == c {
                Place::Anywhere
            } else if c == '"' {
                Place::Quoted
            } else if c == '\'' {
                Place::Literal
            } else if c == '#' {
                Place::Comment
            } else {
                Place::Plain
            }
        },
        Place::Quoted => {
            if c == '\\' {
                Place::Escaped
            } else if c == '"' {
                Place::Plain
            } else {
                Place::Quoted
            }
        },
        Place::Escaped => Place::Quoted,
        Place::Literal => {
            if c == '\'' {
                Place::Plain
            } else {
                Place::Literal
            }
        },
        Place::Comment => Place::Comment,
        Place::Anywhere => Place::Anywhere,
    }
}

/// Whether a document is not nested too deep to be read.
pub fn is_shallow(text: &str) -> (r: bool)
    ensures
        r == (nesting(text@) <= MAX_NESTING),
{
    let s = chars_of(text);
    let mut place = Place::Plain;
    let mut open: usize = 0;
    let mut deepest: usize = 0;
    let mut dots: usize = 0;
    for i in 0..s.len()
        invariant
            s@ == text@,
            depth_after(s@, i as int) == (Depth {
                place,
                open: open as nat,
                deepest: deepest as nat,
                dots: dots as nat,
            }),
            open <= i,
            deepest <= i,
            dots <= i,
    {
        let c = s[i];
        let plain = place == Place::Plain;
        let counts = plain || place == Place::Anywhere;
        if counts && (c == '[' || c == '{') {
            open = open + 1;
        } else if plain && (c == ']' || c == '}') && open > 0 {
            open = open - 1;
        }
        if open > deepest {
            deepest = open;
        }
        if counts && c == '.' {
            dots = dots + 1;
        }
        place = next_place(&s, i, place);
    }
    deepest <= MAX_NESTING && dots <= MAX_NESTING - deepest
}

// ---------------------------------------------------------------------------------------------
// Reading and writing
// ---------------------------------------------------------------------------------------------

/// `basic_toml::from_str`, a function of the text alone. It goes one call deeper for every bracket
/// or brace that is open, and at most two for every part of a key, with no limit of its own: a
/// text that is nested too deep is kept from it.
#[verifier::external_body]
fn read_toml(text: &str) -> (r: Result<Json, basic_toml::Error>)
    requires
        nesting(text@) <= MAX_NESTING,
    ensures
        match r {
            Ok(v) => toml_value(text@) == Some(v@),
            Err(_) => toml_value(text@) is None,
        },
{
    basic_toml::from_str::<serde_json::Value>(text).map(json_of)
}

/// The same value as `serde_json` holds it, variant by variant. Nothing is claimed of it.
#[verifier::external_body]
fn value_of(value: &Json) -> (r: serde_json::Value) {
    match value {
        Json::Null | Json::Float => serde_json::Value::Null,
        Json::Bool(b) => serde_json::Value::from(*b),
        Json::Unsigned(n) => serde_json::Value::from(*n),
        Json::Negative(n) => serde_json::Value::from(*n),
        Json::Str(s) => serde_json::Value::from(s.as_str()),
        Json::Array(items) => serde_json::Value::Array(items.iter().map(value_of).collect()),
        Json::Object(fields) => {
            serde_json::Value::Object(fields.iter().map(|f| (f.0.clone(), value_of(&f.1))).collect())
        },
    }
}

/// `basic_toml::to_string`. A table of scalars, and a list of such tables, is always written:
/// the serializer refuses nulls, keys that are no strings and values behind tables, and there
/// are none. `basic_toml::from_str` reads the text back as the value that was written, keys in
/// the same order, since every text is quoted with its control characters escaped. Outside quotes
/// there are no brackets but the two around the name of a list, and no dots.
#[verifier::external_body]
fn write_toml(document: &Json) -> (r: Result<String, basic_toml::Error>)
    requires
        is_flat(document@) || is_table_list(document@),
    ensures
        r is Ok,
        r->Ok_0@ == toml_text(document@),
        toml_value(r->Ok_0@) == Some(document@),
        nesting(r->Ok_0@) <= 2,
{
    basic_toml::to_string(&value_of(document))
}

/// What a text holds as a TOML document; nothing where it is none, or is nested too deep.
pub open spec fn toml_read(text: Seq<char>) -> Option<JsonView> {
    if nesting(text) <= MAX_NESTING {
        toml_value(text)
    } else {
        None
    }
}

/// A text is the one that is written for a document, and is read as that document.
pub open spec fn is_written(text: Seq<char>, document: JsonView) -> bool {
    text == toml_text(document) && toml_read(text) == Some(document)
}

/// Reads a TOML document.
pub fn parse_toml(text: &str) -> (r: Option<Json>)
    ensures
        opt_view(match r {
            Some(v) => Some(&v),
            None => None,
        }) == toml_read(text@),
{
    if !is_shallow(text) {
        return None;
    }
    match read_toml(text) {
        Ok(v) => Some(v),
        Err(_) => None,
    }
}

/// Writes a document. It is read as what was written.
pub fn toml_string(document: &Json) -> (r: String)
    requires
        is_flat(document@) || is_table_list(document@),
    ensures
        r@ == toml_text(document@),
        toml_read(r@) == Some(document@),
{
    match write_toml(document) {
        Ok(text) => text,
        Err(_) => String::new(),
    }
}

} // verus!
