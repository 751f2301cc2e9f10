//! What the manager asks of the daemon.
use crate::json::{fields_view, find_field, get, object, put, text, Json, JsonView};
use crate::text::opt_text;
use vstd::prelude::*;

verus! {

pub enum Request {
    List,
    Profiles,
    NetStatus,
    Describe { space: String },
    Build { profile: String },
    /// An operation on a space.
    Operate { op: String, space: String, passphrase: Option<String> },
    Create {
        space: String,
        profile: String,
        label: String,
        color: String,
        seed: Option<String>,
        passphrase: Option<String>,
    },
}

pub enum RequestView {
    List,
    Profiles,
    NetStatus,
    Describe { space: Seq<char> },
    Build { profile: Seq<char> },
    Operate { op: Seq<char>, space: Seq<char>, passphrase: Option<Seq<char>> },
    Create {
        space: Seq<char>,
        profile: Seq<char>,
        label: Seq<char>,
        color: Seq<char>,
        seed: Option<Seq<char>>,
        passphrase: Option<Seq<char>>,
    },
}

impl View for Request {
    type V = RequestView;

    open spec fn view(&self) -> RequestView {
        match *self {
            Request::List => RequestView::List,
            Request::Profiles => RequestView::Profiles,
            Request::NetStatus => RequestView::NetStatus,
            Request::Describe { space } => RequestView::Describe { space: space@ },
            Request::Build { profile } => RequestView::Build { profile: profile@ },
            Request::Operate { op, space, passphrase } => RequestView::Operate {
                op: op@,
                space: space@,
                passphrase: opt_text(passphrase),
            },
            Request::Create { space, profile, label, color, seed, passphrase } =>
                RequestView::Create {
                space: space@,
                profile: profile@,
                label: label@,
                color: color@,
                seed: opt_text(seed),
                passphrase: opt_text(passphrase),
            },
        }
    }
}

/// The operation that a request names.
pub open spec fn op_of(r: RequestView) -> Seq<char> {
    match r {
        RequestView::List => "list"@,
        RequestView::Profiles => "profiles"@,
        RequestView::NetStatus => "net-status"@,
        RequestView::Describe { space } => "describe"@,
        RequestView::Build { profile } => "build"@,
        RequestView::Operate { op, space, passphrase } => op,
        RequestView::Create { .. } => "create"@,
    }
}

/// A field that is there only if it has a value.
pub open spec fn optional(key: Seq<char>, value: Option<Seq<char>>) -> Seq<(Seq<char>, JsonView)> {
    match value {
        Some(v) => seq![(key, JsonView::Str(v))],
        None => seq![],
    }
}

pub open spec fn field(key: Seq<char>, value: Seq<char>) -> (Seq<char>, JsonView) {
    (key, JsonView::Str(value))
}

/// The fields of a request.
pub open spec fn request_fields(r: RequestView) -> Seq<(Seq<char>, JsonView)> {
    seq![field("op"@, op_of(r))] + (match r {
        RequestView::Describe { space } => seq![field("space"@, space)],
        RequestView::Build { profile } => seq![field("profile"@, profile)],
        RequestView::Operate { op, space, passphrase } => seq![field("space"@, space)] + optional(
            "passphrase"@,
            passphrase,
        ),
        RequestView::Create { space, profile, label, color, seed, passphrase } => seq![
            field("space"@, space),
            field("profile"@, profile),
            field("label"@, label),
            field("color"@, color),
        ] + optional("seed"@, seed) + optional("passphrase"@, passphrase),
        _ => seq![],
    })
}

impl Request {
    /// The operation that the request names.
    pub fn op(&self) -> (r: String)
        ensures
            r@ == op_of(self@),
    {
        match self {
            Request::List => "list".to_owned(),
            Request::Profiles => "profiles".to_owned(),
            Request::NetStatus => "net-status".to_owned(),
            Request::Describe { .. } => "describe".to_owned(),
            Request::Build { .. } => "build".to_owned(),
            Request::Operate { op, .. } => op.clone(),
            Request::Create { .. } => "create".to_owned(),
        }
    }

    /// The request as it is sent.
    pub fn to_json(&self) -> (r: Json)
        ensures
            r@ == JsonView::Object(request_fields(self@)),
    {
        let mut f: Vec<(String, Json)> = Vec::new();
        assert(fields_view(f@) =~= seq![]);
        put(&mut f, "op", text(self.op().as_str()));
        match self {
            Request::Describe { space } => {
                put(&mut f, "space", text(space.as_str()));
            },
            Request::Build { profile } => {
                put(&mut f, "profile", text(profile.as_str()));
            },
            Request::Operate { op: _, space, passphrase } => {
                put(&mut f, "space", text(space.as_str()));
                put_optional(&mut f, "passphrase", passphrase);
            },
            Request::Create { space, profile, label, color, seed, passphrase } => {
                put(&mut f, "space", text(space.as_str()));
                put(&mut f, "profile", text(profile.as_str()));
                put(&mut f, "label", text(label.as_str()));
                put(&mut f, "color", text(color.as_str()));
                put_optional(&mut f, "seed", seed);
                put_optional(&mut f, "passphrase", passphrase);
            },
            _ => {},
        }
        assert(fields_view(f@) =~= request_fields(self@));
        object(f)
    }
}

fn put_optional(fields: &mut Vec<(String, Json)>, key: &str, value: &Option<String>)
    ensures
        fields_view(final(fields)@) == fields_view(old(fields)@) + optional(
            key@,
            opt_text(*value),
        ),
{
    let ghost before = fields_view(fields@);
    if let Some(v) = value {
        put(fields, key, text(v.as_str()));
    }
    assert(fields_view(fields@) =~= before + optional(key@, opt_text(*value)));
}

/// What a request says under a key.
pub open spec fn said(r: RequestView, key: Seq<char>) -> Option<JsonView> {
    get(JsonView::Object(request_fields(r)), key)
}

/// What tells the keys of a request apart.
spec fn request_mark(key: Seq<char>) -> (nat, char) {
    (key.len(), key[0])
}

proof fn lemma_request_keys()
    ensures
        request_mark("op"@) == (2nat, 'o'),
        request_mark("space"@) == (5nat, 's'),
        request_mark("profile"@) == (7nat, 'p'),
        request_mark("label"@) == (5nat, 'l'),
        request_mark("color"@) == (5nat, 'c'),
        request_mark("seed"@) == (4nat, 's'),
        request_mark("passphrase"@) == (10nat, 'p'),
{
    reveal_strlit("op");
    reveal_strlit("space");
    reveal_strlit("profile");
    reveal_strlit("label");
    reveal_strlit("color");
    reveal_strlit("seed");
    reveal_strlit("passphrase");
}

proof fn lemma_said(r: RequestView, key: Seq<char>, i: int)
    requires
        0 <= i <= request_fields(r).len(),
        i < request_fields(r).len() ==> request_fields(r)[i].0 == key,
        forall|k: int|
            0 <= k < i ==> request_mark((#[trigger] request_fields(r)[k]).0) != request_mark(key),
    ensures
        said(r, key) == (if i < request_fields(r).len() {
            Some(request_fields(r)[i].1)
        } else {
            None
        }),
{
    lemma_found_at(request_fields(r), key, i);
}

proof fn lemma_found_at(fields: Seq<(Seq<char>, JsonView)>, key: Seq<char>, i: int)
    requires
        0 <= i <= fields.len(),
        i < fields.len() ==> fields[i].0 == key,
        forall|k: int|
            0 <= k < i ==> request_mark((#[trigger] fields[k]).0) != request_mark(key),
    ensures
        find_field(fields, key) == (if i < fields.len() {
            Some(fields[i].1)
        } else {
            None
        }),
    decreases i,
{
    if i > 0 {
        assert(request_mark(fields[0].0) != request_mark(key));
        let rest = fields.skip(1);
        assert forall|k: int| 0 <= k < i - 1 implies request_mark((#[trigger] rest[k]).0)
            != request_mark(key) by {
            assert(rest[k] == fields[k + 1]);
        }
        lemma_found_at(rest, key, i - 1);
    }
}

/// A read names what is read and nothing else.
pub proof fn a_read_says_what_is_read(space: Seq<char>)
    ensures
        said(RequestView::List, "op"@) == Some(JsonView::Str("list"@)),
        said(RequestView::Profiles, "op"@) == Some(JsonView::Str("profiles"@)),
        said(RequestView::NetStatus, "op"@) == Some(JsonView::Str("net-status"@)),
        said(RequestView::Describe { space }, "op"@) == Some(JsonView::Str("describe"@)),
        said(RequestView::Describe { space }, "space"@) == Some(JsonView::Str(space)),
{
    lemma_request_keys();
    lemma_said(RequestView::List, "op"@, 0);
    lemma_said(RequestView::Profiles, "op"@, 0);
    lemma_said(RequestView::NetStatus, "op"@, 0);
    lemma_said(RequestView::Describe { space }, "op"@, 0);
    lemma_said(RequestView::Describe { space }, "space"@, 1);
}

/// A build names its profile; an operation names itself, its space and the passphrase that was
/// typed, and no passphrase where none was.
pub proof fn an_operation_says_what_is_done(
    profile: Seq<char>,
    op: Seq<char>,
    space: Seq<char>,
    passphrase: Option<Seq<char>>,
)
    ensures
        said(RequestView::Build { profile }, "op"@) == Some(JsonView::Str("build"@)),
        said(RequestView::Build { profile }, "profile"@) == Some(JsonView::Str(profile)),
        said(RequestView::Operate { op, space, passphrase }, "op"@) == Some(JsonView::Str(op)),
        said(RequestView::Operate { op, space, passphrase }, "space"@) == Some(
            JsonView::Str(space),
        ),
        said(RequestView::Operate { op, space, passphrase }, "passphrase"@) == (match passphrase {
            Some(words) => Some(JsonView::Str(words)),
            None => None,
        }),
{
    lemma_request_keys();
    lemma_said(RequestView::Build { profile }, "op"@, 0);
    lemma_said(RequestView::Build { profile }, "profile"@, 1);
    let r = RequestView::Operate { op, space, passphrase };
    lemma_said(r, "op"@, 0);
    lemma_said(r, "space"@, 1);
    lemma_said(r, "passphrase"@, 2);
}

/// A creation says under each key what was entered for it; what was left out is not said.
pub proof fn a_creation_says_what_was_entered(
    space: Seq<char>,
    profile: Seq<char>,
    label: Seq<char>,
    color: Seq<char>,
    seed: Option<Seq<char>>,
    passphrase: Option<Seq<char>>,
)
    ensures
        ({
            let r = RequestView::Create { space, profile, label, color, seed, passphrase };
            &&& said(r, "op"@) == Some(JsonView::Str("create"@))
            &&& said(r, "space"@) == Some(JsonView::Str(space))
            &&& said(r, "profile"@) == Some(JsonView::Str(profile))
            &&& said(r, "label"@) == Some(JsonView::Str(label))
            &&& said(r, "color"@) == Some(JsonView::Str(color))
            &&& said(r, "seed"@) == (match seed {
                Some(dir) => Some(JsonView::Str(dir)),
                None => None,
            })
            &&& said(r, "passphrase"@) == (match passphrase {
                Some(words) => Some(JsonView::Str(words)),
                None => None,
            })
        }),
{
    lemma_request_keys();
    let r = RequestView::Create { space, profile, label, color, seed, passphrase };
    lemma_said(r, "op"@, 0);
    lemma_said(r, "space"@, 1);
    lemma_said(r, "profile"@, 2);
    lemma_said(r, "label"@, 3);
    lemma_said(r, "color"@, 4);
    let f = request_fields(r);
    if seed is Some {
        lemma_said(r, "seed"@, 5);
        lemma_said(r, "passphrase"@, 6);
    } else {
        lemma_said(r, "seed"@, f.len() as int);
        lemma_said(r, "passphrase"@, 5);
    }
}

} // verus!
