//! The spaces that exist: how a new one gets its numbers, and how each is written down.
use crate::accounts::{uid_free, uid_is_free};
use crate::daemon::calendar::{is_timestamp, rfc3339_from_epoch};
use crate::daemon::render::{
    entry_rows, nft_text, oversized_text, registry_document, registry_rows, first_oversized,
    render_nft, render_registry, RegistryEntry, RegistryRow, MIYORI_NET_CID, MIYORI_NET_ID,
};
use crate::ids::{is_color, is_rrggbb, is_slug, slug_ok};
use crate::json::{
    as_str, as_u64, fields_view, get, keys_differ, lemma_find_field, lemma_find_nothing, lemma_view,
    object, put, str_of, u64_of, Json, JsonView,
};
use crate::names::{space_tap, tap_name};
use crate::order::{
    insert_by, is_order, is_sorted, lemma_insert_at, lemma_insert_by_multiset,
    lemma_insert_by_sorted, lemma_sort_by_multiset, lemma_sort_by_sorted, lemma_sorted_unique,
    lemma_text_le_total, lemma_text_le_transitive, sort_by, str_le, text_le,
};
use crate::paths::{join_path, path_join};
use crate::text::{dec, str_equal, strings_contain, texts, u32_to_string};
use crate::toml::{is_flat, is_written, parse_toml, toml_read, toml_string, toml_text};
use vstd::prelude::*;

verus! {

/// The account of a space has the number of its context id above this one.
pub const UID_BASE: u32 = 70000;

pub const FIRST_CID: u32 = 3;

pub const LAST_CID: u32 = 255;

#[derive(Debug, PartialEq, Eq)]
pub struct SpaceConfig {
    pub id: String,
    pub profile: String,
    pub digest: String,
    pub cid: u32,
    pub uid: u32,
    pub label: String,
    pub color: String,
    pub created: String,
    /// How the last stop went; nothing before the first one.
    pub clean_shutdown: Option<bool>,
    /// Chosen when the space is created, and never changed.
    pub encrypted: bool,
}

#[verifier::ext_equal]
pub struct ConfigView {
    pub id: Seq<char>,
    pub profile: Seq<char>,
    pub digest: Seq<char>,
    pub cid: u32,
    pub uid: u32,
    pub label: Seq<char>,
    pub color: Seq<char>,
    pub created: Seq<char>,
    pub clean_shutdown: Option<bool>,
    pub encrypted: bool,
}

impl View for SpaceConfig {
    type V = ConfigView;

    open spec fn view(&self) -> ConfigView {
        ConfigView {
            id: self.id@,
            profile: self.profile@,
            digest: self.digest@,
            cid: self.cid,
            uid: self.uid,
            label: self.label@,
            color: self.color@,
            created: self.created@,
            clean_shutdown: self.clean_shutdown,
            encrypted: self.encrypted,
        }
    }
}

impl SpaceConfig {
    pub fn copy(&self) -> (r: SpaceConfig)
        ensures
            r@ == self@,
    {
        SpaceConfig {
            id: self.id.clone(),
            profile: self.profile.clone(),
            digest: self.digest.clone(),
            cid: self.cid,
            uid: self.uid,
            label: self.label.clone(),
            color: self.color.clone(),
            created: self.created.clone(),
            clean_shutdown: self.clean_shutdown,
            encrypted: self.encrypted,
        }
    }
}

pub open spec fn config_views(spaces: Seq<SpaceConfig>) -> Seq<ConfigView> {
    spaces.map_values(|s: SpaceConfig| s@)
}

// ---------------------------------------------------------------------------------------------
// A space on disk
// ---------------------------------------------------------------------------------------------

pub open spec fn config_is_valid(c: ConfigView) -> bool {
    is_slug(c.id) && is_slug(c.profile) && is_slug(c.label) && is_color(c.color)
}

pub open spec fn config_head(c: ConfigView) -> Seq<(Seq<char>, JsonView)> {
    seq![
        ("id"@, JsonView::Str(c.id)),
        ("profile"@, JsonView::Str(c.profile)),
        ("digest"@, JsonView::Str(c.digest)),
        ("cid"@, JsonView::Unsigned(c.cid as u64)),
        ("uid"@, JsonView::Unsigned(c.uid as u64)),
        ("label"@, JsonView::Str(c.label)),
        ("color"@, JsonView::Str(c.color)),
        ("created"@, JsonView::Str(c.created)),
    ]
}

pub open spec fn config_fields(c: ConfigView) -> Seq<(Seq<char>, JsonView)> {
    match c.clean_shutdown {
        Some(clean) => config_head(c).push(("clean_shutdown"@, JsonView::Bool(clean))).push(
            ("encrypted"@, JsonView::Bool(c.encrypted)),
        ),
        None => config_head(c).push(("encrypted"@, JsonView::Bool(c.encrypted))),
    }
}

/// The document of a space: a table with one line for each field that has a value.
pub open spec fn config_document(c: ConfigView) -> JsonView {
    JsonView::Object(config_fields(c))
}

pub open spec fn is_config_key(key: Seq<char>) -> bool {
    ||| key == "id"@
    ||| key == "profile"@
    ||| key == "digest"@
    ||| key == "cid"@
    ||| key == "uid"@
    ||| key == "label"@
    ||| key == "color"@
    ||| key == "created"@
    ||| key == "clean_shutdown"@
    ||| key == "encrypted"@
}

/// The number behind a key, if it fits.
pub open spec fn as_u32(v: Option<JsonView>) -> Option<u32> {
    match as_u64(v) {
        Some(n) => if n <= u32::MAX {
            Some(n as u32)
        } else {
            None
        },
        None => None,
    }
}

/// A flag that may be missing but, where it is there, is a flag.
pub open spec fn flag_or_nothing(v: Option<JsonView>) -> Option<Option<bool>> {
    match v {
        None => Some(None),
        Some(JsonView::Bool(b)) => Some(Some(b)),
        Some(_) => None,
    }
}

/// The space that a document describes. A field that is not known, or lacks its shape, makes
/// the whole document invalid. What the older documents do not say is: never stopped, and not
/// encrypted.
pub open spec fn config_of(v: JsonView) -> Option<ConfigView> {
    match v {
        JsonView::Object(fields) => if forall|i: int|
            0 <= i < fields.len() ==> is_config_key((#[trigger] fields[i]).0) {
            match (
                as_str(get(v, "id"@)),
                as_str(get(v, "profile"@)),
                as_str(get(v, "digest"@)),
                as_u32(get(v, "cid"@)),
                as_u32(get(v, "uid"@)),
                as_str(get(v, "label"@)),
                as_str(get(v, "color"@)),
                as_str(get(v, "created"@)),
                flag_or_nothing(get(v, "clean_shutdown"@)),
                flag_or_nothing(get(v, "encrypted"@)),
            ) {
                (
                    Some(id),
                    Some(profile),
                    Some(digest),
                    Some(cid),
                    Some(uid),
                    Some(label),
                    Some(color),
                    Some(created),
                    Some(clean_shutdown),
                    Some(encrypted),
                ) => {
                    let c = ConfigView {
                        id,
                        profile,
                        digest,
                        cid,
                        uid,
                        label,
                        color,
                        created,
                        clean_shutdown,
                        encrypted: encrypted == Some(true),
                    };
                    if config_is_valid(c) {
                        Some(c)
                    } else {
                        None
                    }
                },
                _ => None,
            }
        } else {
            None
        },
        _ => None,
    }
}

proof fn lemma_config_keys(c: ConfigView)
    ensures
        keys_differ(config_fields(c)),
        c.clean_shutdown is None ==> forall|i: int|
            0 <= i < config_fields(c).len() ==> (#[trigger] config_fields(c)[i]).0
                != "clean_shutdown"@,
        is_flat(config_document(c)),
{
    reveal_strlit("id");
    reveal_strlit("profile");
    reveal_strlit("digest");
    reveal_strlit("cid");
    reveal_strlit("uid");
    reveal_strlit("label");
    reveal_strlit("color");
    reveal_strlit("created");
    reveal_strlit("clean_shutdown");
    reveal_strlit("encrypted");
    let f = config_fields(c);
    assert("id"@.len() == 2 && "profile"@.len() == 7 && "digest"@.len() == 6 && "cid"@.len() == 3);
    assert("uid"@.len() == 3 && "label"@.len() == 5 && "color"@.len() == 5);
    assert("created"@.len() == 7 && "clean_shutdown"@.len() == 14 && "encrypted"@.len() == 9);
    assert("cid"@[0] != "uid"@[0]);
    assert("label"@[0] != "color"@[0]);
    assert("profile"@[0] != "created"@[0]);
    assert(f[0].0 == "id"@ && f[1].0 == "profile"@ && f[2].0 == "digest"@ && f[3].0 == "cid"@);
    assert(f[4].0 == "uid"@ && f[5].0 == "label"@ && f[6].0 == "color"@ && f[7].0 == "created"@);
    assert forall|i: int, j: int| 0 <= i < j < f.len() implies #[trigger] f[i].0
        != #[trigger] f[j].0 by {
        assert(f[i].0.len() != f[j].0.len() || f[i].0[0] != f[j].0[0]);
    }
}

/// A space reads back as it was written.
pub proof fn config_roundtrip(c: ConfigView)
    requires
        config_is_valid(c),
    ensures
        config_of(config_document(c)) == Some(c),
{
    lemma_config_keys(c);
    let f = config_fields(c);
    let v = config_document(c);
    lemma_find_field(f, 0);
    lemma_find_field(f, 1);
    lemma_find_field(f, 2);
    lemma_find_field(f, 3);
    lemma_find_field(f, 4);
    lemma_find_field(f, 5);
    lemma_find_field(f, 6);
    lemma_find_field(f, 7);
    lemma_find_field(f, f.len() - 1);
    if c.clean_shutdown is Some {
        lemma_find_field(f, 8);
    } else {
        lemma_find_nothing(f, "clean_shutdown"@);
    }
    assert forall|i: int| 0 <= i < f.len() implies is_config_key((#[trigger] f[i]).0) by {
        assert(i == 0 || i == 1 || i == 2 || i == 3 || i == 4 || i == 5 || i == 6 || i == 7 || i
            == 8 || i == 9);
    }
    assert(get(v, "id"@) == Some(f[0].1));
    assert(get(v, "cid"@) == Some(f[3].1));
    assert(get(v, "uid"@) == Some(f[4].1));
    assert(get(v, "encrypted"@) == Some(JsonView::Bool(c.encrypted)));
}

/// The document of a space, as text.
pub fn render_config(config: &SpaceConfig) -> (r: String)
    ensures
        r@ == toml_text(config_document(config@)),
        toml_read(r@) == Some(config_document(config@)),
{
    let mut f: Vec<(String, Json)> = Vec::new();
    assert(fields_view(f@) =~= seq![]);
    put(&mut f, "id", Json::Str(config.id.clone()));
    put(&mut f, "profile", Json::Str(config.profile.clone()));
    put(&mut f, "digest", Json::Str(config.digest.clone()));
    put(&mut f, "cid", Json::Unsigned(config.cid as u64));
    put(&mut f, "uid", Json::Unsigned(config.uid as u64));
    put(&mut f, "label", Json::Str(config.label.clone()));
    put(&mut f, "color", Json::Str(config.color.clone()));
    put(&mut f, "created", Json::Str(config.created.clone()));
    assert(fields_view(f@) =~= config_head(config@));
    match config.clean_shutdown {
        Some(clean) => put(&mut f, "clean_shutdown", Json::Bool(clean)),
        None => {},
    }
    put(&mut f, "encrypted", Json::Bool(config.encrypted));
    assert(fields_view(f@) =~= config_fields(config@));
    let document = object(f);
    proof {
        lemma_config_keys(config@);
    }
    toml_string(&document)
}

fn u32_of(v: Option<&Json>) -> (r: Option<u32>)
    ensures
        r == as_u32(crate::json::opt_view(v)),
{
    match u64_of(v) {
        Some(n) => if n <= u32::MAX as u64 {
            Some(n as u32)
        } else {
            None
        },
        None => None,
    }
}

fn flag_of(v: Option<&Json>) -> (r: Option<Option<bool>>)
    ensures
        r == flag_or_nothing(crate::json::opt_view(v)),
{
    match v {
        None => Some(None),
        Some(Json::Bool(b)) => Some(Some(*b)),
        Some(_) => None,
    }
}

fn key_is_known(key: &str) -> (r: bool)
    ensures
        r == is_config_key(key@),
{
    str_equal(key, "id") || str_equal(key, "profile") || str_equal(key, "digest") || str_equal(
        key,
        "cid",
    ) || str_equal(key, "uid") || str_equal(key, "label") || str_equal(key, "color") || str_equal(
        key,
        "created",
    ) || str_equal(key, "clean_shutdown") || str_equal(key, "encrypted")
}

/// The space that a document describes.
pub fn config_from(document: &Json) -> (r: Option<SpaceConfig>)
    ensures
        match (r, config_of(document@)) {
            (Some(c), Some(d)) => c@ == d,
            (None, None) => true,
            _ => false,
        },
{
    proof {
        lemma_view(*document);
    }
    let fields = match document {
        Json::Object(fields) => fields,
        _ => return None,
    };
    let ghost all = fields_view(fields@);
    for i in 0..fields.len()
        invariant
            all == fields_view(fields@),
            document@ == JsonView::Object(all),
            forall|j: int| 0 <= j < i ==> is_config_key((#[trigger] all[j]).0),
    {
        assert(all[i as int].0 == fields@[i as int].0@);
        if !key_is_known(fields[i].0.as_str()) {
            return None;
        }
    }
    let id = str_of(document.get("id"))?;
    let profile = str_of(document.get("profile"))?;
    let digest = str_of(document.get("digest"))?;
    let cid: u32 = u32_of(document.get("cid"))?;
    let uid: u32 = u32_of(document.get("uid"))?;
    let label = str_of(document.get("label"))?;
    let color = str_of(document.get("color"))?;
    let created = str_of(document.get("created"))?;
    let clean_shutdown = flag_of(document.get("clean_shutdown"))?;
    let encrypted = match flag_of(document.get("encrypted"))? {
        Some(b) => b,
        None => false,
    };
    if slug_ok(id.as_str()) && slug_ok(profile.as_str()) && slug_ok(label.as_str()) && is_rrggbb(
        color.as_str(),
    ) {
        Some(
            SpaceConfig {
                id,
                profile,
                digest,
                cid,
                uid,
                label,
                color,
                created,
                clean_shutdown,
                encrypted,
            },
        )
    } else {
        None
    }
}

/// The space that a text describes.
pub fn parse_config(src: &str) -> (r: Option<SpaceConfig>)
    ensures
        match toml_read(src@) {
            Some(v) => match (r, config_of(v)) {
                (Some(c), Some(d)) => c@ == d,
                (None, None) => true,
                _ => false,
            },
            None => r is None,
        },
{
    match parse_toml(src) {
        Some(document) => config_from(&document),
        None => None,
    }
}

// ---------------------------------------------------------------------------------------------
// The store
// ---------------------------------------------------------------------------------------------

pub struct Store {
    pub state_dir: String,
    pub passwd_path: String,
    pub net_dir: String,
    pub spaces: Vec<SpaceConfig>,
}

impl View for Store {
    type V = Seq<ConfigView>;

    open spec fn view(&self) -> Seq<ConfigView> {
        config_views(self.spaces@)
    }
}

pub open spec fn by_id() -> spec_fn(ConfigView, ConfigView) -> bool {
    |a: ConfigView, b: ConfigView| text_le(a.id, b.id)
}

pub proof fn lemma_by_id_is_order()
    ensures
        is_order(by_id()),
{
    assert forall|a: ConfigView, b: ConfigView| #[trigger] by_id()(a, b) || by_id()(b, a) by {
        lemma_text_le_total(a.id, b.id);
    }
    assert forall|a: ConfigView, b: ConfigView, c: ConfigView|
        #[trigger] by_id()(a, b) && #[trigger] by_id()(b, c) implies by_id()(a, c) by {
        lemma_text_le_transitive(a.id, b.id, c.id);
    }
}

/// Where the space of that id stands.
pub open spec fn index_of_id(spaces: Seq<ConfigView>, id: Seq<char>) -> Option<int>
    decreases spaces.len(),
{
    if spaces.len() == 0 {
        None
    } else if spaces[0].id == id {
        Some(0)
    } else {
        match index_of_id(spaces.skip(1), id) {
            Some(i) => Some(i + 1),
            None => None,
        }
    }
}

pub open spec fn space_with_id(spaces: Seq<ConfigView>, id: Seq<char>) -> Option<ConfigView> {
    match index_of_id(spaces, id) {
        Some(i) => Some(spaces[i]),
        None => None,
    }
}

pub proof fn lemma_index_of_id(spaces: Seq<ConfigView>, id: Seq<char>)
    ensures
        match index_of_id(spaces, id) {
            Some(i) => 0 <= i < spaces.len() && spaces[i].id == id && forall|j: int|
                0 <= j < i ==> (#[trigger] spaces[j]).id != id,
            None => forall|j: int| 0 <= j < spaces.len() ==> (#[trigger] spaces[j]).id != id,
        },
    decreases spaces.len(),
{
    if spaces.len() > 0 && spaces[0].id != id {
        let rest = spaces.skip(1);
        lemma_index_of_id(rest, id);
        match index_of_id(rest, id) {
            Some(i) => {
                assert forall|j: int| 0 <= j < i + 1 implies (#[trigger] spaces[j]).id != id by {
                    if j > 0 {
                        assert(rest[j - 1].id != id);
                    }
                }
            },
            None => {
                assert forall|j: int| 0 <= j < spaces.len() implies (#[trigger] spaces[j]).id
                    != id by {
                    if j > 0 {
                        assert(rest[j - 1].id != id);
                    }
                }
            },
        }
    }
}

/// A context id that a new space may have: it is no other space's and not the network machine's,
/// and no tap on the host has its name.
pub open spec fn cid_is_free(spaces: Seq<ConfigView>, links: Seq<Seq<char>>, cid: u32) -> bool {
    &&& FIRST_CID <= cid <= LAST_CID
    &&& cid != MIYORI_NET_CID
    &&& forall|i: int| 0 <= i < spaces.len() ==> (#[trigger] spaces[i]).cid != cid
    &&& !links.contains(tap_name(cid))
}

/// The lowest free context id from `cid` on.
pub open spec fn lowest_from(spaces: Seq<ConfigView>, links: Seq<Seq<char>>, cid: u32) -> Option<
    u32,
>
    decreases LAST_CID + 1 - cid,
{
    if cid > LAST_CID {
        None
    } else if cid_is_free(spaces, links, cid) {
        Some(cid)
    } else {
        lowest_from(spaces, links, (cid + 1) as u32)
    }
}

/// The context id of the next space: the lowest free one.
pub open spec fn lowest_free(spaces: Seq<ConfigView>, links: Seq<Seq<char>>) -> Option<u32> {
    lowest_from(spaces, links, FIRST_CID)
}

proof fn lemma_lowest_from(spaces: Seq<ConfigView>, links: Seq<Seq<char>>, cid: u32)
    requires
        cid <= LAST_CID + 1,
    ensures
        match lowest_from(spaces, links, cid) {
            Some(c) => cid <= c && cid_is_free(spaces, links, c) && forall|d: u32|
                cid <= d < c ==> !#[trigger] cid_is_free(spaces, links, d),
            None => forall|d: u32| cid <= d ==> !#[trigger] cid_is_free(spaces, links, d),
        },
    decreases LAST_CID + 1 - cid,
{
    if cid <= LAST_CID && !cid_is_free(spaces, links, cid) {
        lemma_lowest_from(spaces, links, (cid + 1) as u32);
    }
}

/// A new space gets a free context id, no lower one is free, and where none is given none is
/// free.
pub proof fn the_lowest_free_cid(spaces: Seq<ConfigView>, links: Seq<Seq<char>>)
    ensures
        match lowest_free(spaces, links) {
            Some(c) => cid_is_free(spaces, links, c) && forall|d: u32|
                d < c ==> !#[trigger] cid_is_free(spaces, links, d),
            None => forall|d: u32| !#[trigger] cid_is_free(spaces, links, d),
        },
{
    lemma_lowest_from(spaces, links, FIRST_CID);
}

pub open spec fn no_cid_text() -> Seq<char> {
    "нет свободных CID в диапазоне 3..=255"@
}

pub open spec fn uid_taken_text(uid: u32, passwd_path: Seq<char>) -> Seq<char> {
    "uid "@ + dec(uid as nat) + " уже занят в "@ + passwd_path
}

pub open spec fn exists_text(id: Seq<char>) -> Seq<char> {
    "спейс \""@ + id + "\" уже существует"@
}

pub open spec fn missing_text(id: Seq<char>) -> Seq<char> {
    "спейс \""@ + id + "\" не найден"@
}

/// What is asked of a new space.
pub struct NewSpace {
    pub id: String,
    pub profile: String,
    pub digest: String,
    pub label: String,
    pub color: String,
    pub encrypted: bool,
}

/// The context id of a space of that id, or the words for why there cannot be one.
pub open spec fn creation(
    spaces: Seq<ConfigView>,
    id: Seq<char>,
    links: Seq<Seq<char>>,
    passwd: Seq<char>,
    passwd_path: Seq<char>,
) -> Result<u32, Seq<char>> {
    if id == MIYORI_NET_ID@ {
        Err("id \"miyori-net\" зарезервирован за сетевой VM"@)
    } else if space_with_id(spaces, id) is Some {
        Err(exists_text(id))
    } else {
        match lowest_free(spaces, links) {
            None => Err(no_cid_text()),
            Some(cid) => if uid_is_free(passwd, (UID_BASE + cid) as u32) {
                Ok(cid)
            } else {
                Err(uid_taken_text((UID_BASE + cid) as u32, passwd_path))
            },
        }
    }
}

/// What a created space is.
pub open spec fn is_created(c: ConfigView, new: NewSpace, cid: u32, now_secs: u64) -> bool {
    &&& c.id == new.id@
    &&& c.profile == new.profile@
    &&& c.digest == new.digest@
    &&& c.label == new.label@
    &&& c.color == new.color@
    &&& c.encrypted == new.encrypted
    &&& c.cid == cid
    &&& c.uid == UID_BASE + cid
    &&& c.clean_shutdown is None
    &&& is_timestamp(c.created, now_secs as nat)
}

/// The spaces in the order of their ids.
fn sort_configs(configs: Vec<SpaceConfig>) -> (r: Vec<SpaceConfig>)
    ensures
        config_views(r@) == sort_by(config_views(configs@), by_id()),
{
    let ghost all = config_views(configs@);
    let mut out: Vec<SpaceConfig> = Vec::new();
    assert(all.take(0) =~= seq![]);
    assert(config_views(out@) =~= seq![]);
    for i in 0..configs.len()
        invariant
            all == config_views(configs@),
            config_views(out@) == sort_by(all.take(i as int), by_id()),
    {
        assert(all.take(i + 1).drop_last() =~= all.take(i as int));
        assert(all.take(i + 1).last() == configs@[i as int]@);
        insert_config(&mut out, configs[i].copy());
    }
    assert(all.take(configs@.len() as int) =~= all);
    out
}

fn insert_config(out: &mut Vec<SpaceConfig>, c: SpaceConfig)
    ensures
        config_views(final(out)@) == insert_by(config_views(old(out)@), c@, by_id()),
{
    let ghost all = config_views(out@);
    let mut pos: usize = out.len();
    while pos > 0 && !str_le(out[pos - 1].id.as_str(), c.id.as_str())
        invariant
            pos <= out@.len(),
            all == config_views(out@),
            forall|j: int| pos <= j < all.len() ==> !by_id()(#[trigger] all[j], c@),
        decreases pos,
    {
        assert(all[pos - 1] == out@[pos - 1]@);
        pos = pos - 1;
    }
    proof {
        if pos > 0 {
            assert(all[pos - 1] == out@[pos - 1]@);
        }
        lemma_insert_at(all, c@, by_id(), pos as int);
    }
    out.insert(pos, c);
    assert(config_views(out@) =~= all.insert(pos as int, c@));
}

impl Store {
    /// A store of the spaces that were found under `state_dir`.
    pub fn load(state_dir: &str, configs: Vec<SpaceConfig>) -> (r: Store)
        ensures
            r@ == sort_by(config_views(configs@), by_id()),
            r.state_dir@ == state_dir@,
            r.passwd_path@ == "/etc/passwd"@,
            r.net_dir@ == "/sys/class/net"@,
    {
        Store::load_with_passwd(state_dir, "/etc/passwd", configs)
    }

    pub fn load_with_passwd(state_dir: &str, passwd_path: &str, configs: Vec<SpaceConfig>) -> (r:
        Store)
        ensures
            r@ == sort_by(config_views(configs@), by_id()),
            r.state_dir@ == state_dir@,
            r.passwd_path@ == passwd_path@,
            r.net_dir@ == "/sys/class/net"@,
    {
        Store::load_with_paths(state_dir, passwd_path, "/sys/class/net", configs)
    }

    pub fn load_with_paths(
        state_dir: &str,
        passwd_path: &str,
        net_dir: &str,
        configs: Vec<SpaceConfig>,
    ) -> (r: Store)
        ensures
            r@ == sort_by(config_views(configs@), by_id()),
            r.state_dir@ == state_dir@,
            r.passwd_path@ == passwd_path@,
            r.net_dir@ == net_dir@,
    {
        Store {
            state_dir: state_dir.to_owned(),
            passwd_path: passwd_path.to_owned(),
            net_dir: net_dir.to_owned(),
            spaces: sort_configs(configs),
        }
    }

    pub fn list(&self) -> (r: &Vec<SpaceConfig>)
        ensures
            config_views(r@) == self@,
    {
        &self.spaces
    }

    fn position(&self, id: &str) -> (r: Option<usize>)
        ensures
            match (r, index_of_id(self@, id@)) {
                (Some(i), Some(j)) => i == j && i < self.spaces@.len(),
                (None, None) => true,
                _ => false,
            },
    {
        let ghost all = self@;
        proof {
            lemma_index_of_id(all, id@);
        }
        for i in 0..self.spaces.len()
            invariant
                all == config_views(self.spaces@),
                all == self@,
                forall|j: int| 0 <= j < i ==> (#[trigger] all[j]).id != id@,
                match index_of_id(all, id@) {
                    Some(i) => 0 <= i < all.len() && all[i].id == id@ && forall|j: int|
                        0 <= j < i ==> (#[trigger] all[j]).id != id@,
                    None => forall|j: int| 0 <= j < all.len() ==> (#[trigger] all[j]).id != id@,
                },
        {
            assert(all[i as int].id == self.spaces@[i as int].id@);
            if str_equal(self.spaces[i].id.as_str(), id) {
                return Some(i);
            }
        }
        None
    }

    pub fn get(&self, id: &str) -> (r: Option<&SpaceConfig>)
        ensures
            match (r, space_with_id(self@, id@)) {
                (Some(c), Some(d)) => c@ == d,
                (None, None) => true,
                _ => false,
            },
    {
        match self.position(id) {
            Some(i) => {
                assert(self@[i as int] == self.spaces@[i as int]@);
                Some(&self.spaces[i])
            },
            None => None,
        }
    }

    /// The directory of a space.
    pub fn space_dir(&self, id: &str) -> (r: String)
        ensures
            r@ == join_path(join_path(self.state_dir@, "spaces"@), id@),
    {
        path_join(path_join(self.state_dir.as_str(), "spaces").as_str(), id)
    }

    fn cid_in_use(&self, cid: u32) -> (r: bool)
        ensures
            r == exists|i: int| 0 <= i < self@.len() && (#[trigger] self@[i]).cid == cid,
    {
        let ghost all = self@;
        for i in 0..self.spaces.len()
            invariant
                all == config_views(self.spaces@),
                all == self@,
                forall|j: int| 0 <= j < i ==> (#[trigger] all[j]).cid != cid,
        {
            assert(all[i as int].cid == self.spaces@[i as int].cid);
            if self.spaces[i].cid == cid {
                return true;
            }
        }
        false
    }

    /// The lowest free context id, given the names of the links on the host.
    pub fn allocate_cid(&self, links: &Vec<String>) -> (r: Option<u32>)
        ensures
            r == lowest_free(self@, texts(links@)),
    {
        let mut cid: u32 = FIRST_CID;
        while cid <= LAST_CID
            invariant
                FIRST_CID <= cid <= LAST_CID + 1,
                lowest_from(self@, texts(links@), cid) == lowest_free(self@, texts(links@)),
            decreases LAST_CID + 1 - cid,
        {
            if cid != MIYORI_NET_CID && !self.cid_in_use(cid) {
                let tap = space_tap(cid);
                if !strings_contain(links, tap.as_str()) {
                    return Some(cid);
                }
            }
            cid = cid + 1;
        }
        None
    }

    /// Takes up a new space under the lowest free context id. `links` are the names of the links
    /// on the host, `passwd` is the text of its accounts, `now_secs` the time since 1970.
    pub fn create_space(
        &mut self,
        new: &NewSpace,
        links: &Vec<String>,
        passwd: &str,
        now_secs: u64,
    ) -> (r: Result<SpaceConfig, String>)
        ensures
            final(self).state_dir == old(self).state_dir,
            final(self).passwd_path == old(self).passwd_path,
            final(self).net_dir == old(self).net_dir,
            match creation(
                old(self)@,
                new.id@,
                texts(links@),
                passwd@,
                old(self).passwd_path@,
            ) {
                Err(words) => {
                    &&& r matches Err(m) && m@ == words
                    &&& final(self)@ == old(self)@
                },
                Ok(cid) => {
                    &&& r matches Ok(c)
                    &&& is_created(c@, *new, cid, now_secs)
                    &&& final(self)@ == insert_by(old(self)@, c@, by_id())
                },
            },
    {
        if str_equal(new.id.as_str(), MIYORI_NET_ID) {
            return Err("id \"miyori-net\" зарезервирован за сетевой VM".to_owned());
        }
        if self.get(new.id.as_str()).is_some() {
            return Err(
                "спейс \"".to_owned().concat(new.id.as_str()).concat("\" уже существует"),
            );
        }
        let cid: u32 = match self.allocate_cid(links) {
            Some(cid) => cid,
            None => return Err("нет свободных CID в диапазоне 3..=255".to_owned()),
        };
        proof {
            the_lowest_free_cid(self@, texts(links@));
        }
        let uid: u32 = UID_BASE + cid;
        if !uid_free(passwd, uid) {
            return Err(
                "uid ".to_owned().concat(u32_to_string(uid).as_str()).concat(
                    " уже занят в ",
                ).concat(self.passwd_path.as_str()),
            );
        }
        let config = SpaceConfig {
            id: new.id.clone(),
            profile: new.profile.clone(),
            digest: new.digest.clone(),
            cid,
            uid,
            label: new.label.clone(),
            color: new.color.clone(),
            created: rfc3339_from_epoch(now_secs),
            clean_shutdown: None,
            encrypted: new.encrypted,
        };
        let kept = config.copy();
        insert_config(&mut self.spaces, kept);
        assert(is_created(config@, *new, cid, now_secs));
        Ok(config)
    }

    /// Notes how the last stop of a space went.
    pub fn set_clean_shutdown(&mut self, id: &str, clean: bool) -> (r: Result<(), String>)
        ensures
            final(self).state_dir == old(self).state_dir,
            final(self).passwd_path == old(self).passwd_path,
            final(self).net_dir == old(self).net_dir,
            match index_of_id(old(self)@, id@) {
                Some(i) => {
                    &&& r is Ok
                    &&& final(self)@ == old(self)@.update(
                        i,
                        (ConfigView { clean_shutdown: Some(clean), ..old(self)@[i] }),
                    )
                },
                None => {
                    &&& r matches Err(m) && m@ == missing_text(id@)
                    &&& final(self)@ == old(self)@
                },
            },
    {
        match self.position(id) {
            Some(i) => {
                let mut c = self.spaces[i].copy();
                c.clean_shutdown = Some(clean);
                self.spaces.set(i, c);
                assert(old(self)@[i as int] == old(self).spaces@[i as int]@);
                assert(self@ =~= old(self)@.update(
                    i as int,
                    ConfigView { clean_shutdown: Some(clean), ..old(self)@[i as int] },
                ));
                Ok(())
            },
            None => Err("спейс \"".to_owned().concat(id).concat("\" не найден")),
        }
    }

    /// Notes the image that a space runs on.
    pub fn set_digest(&mut self, id: &str, digest: String) -> (r: Result<(), String>)
        ensures
            final(self).state_dir == old(self).state_dir,
            final(self).passwd_path == old(self).passwd_path,
            final(self).net_dir == old(self).net_dir,
            match index_of_id(old(self)@, id@) {
                Some(i) => {
                    &&& r is Ok
                    &&& final(self)@ == old(self)@.update(
                        i,
                        (ConfigView { digest: digest@, ..old(self)@[i] }),
                    )
                },
                None => {
                    &&& r matches Err(m) && m@ == missing_text(id@)
                    &&& final(self)@ == old(self)@
                },
            },
    {
        match self.position(id) {
            Some(i) => {
                let mut c = self.spaces[i].copy();
                c.digest = digest.clone();
                self.spaces.set(i, c);
                assert(old(self)@[i as int] == old(self).spaces@[i as int]@);
                assert(self@ =~= old(self)@.update(
                    i as int,
                    ConfigView { digest: digest@, ..old(self)@[i as int] },
                ));
                Ok(())
            },
            None => Err("спейс \"".to_owned().concat(id).concat("\" не найден")),
        }
    }

    /// Forgets a space.
    pub fn remove_space(&mut self, id: &str) -> (r: Result<(), String>)
        ensures
            final(self).state_dir == old(self).state_dir,
            final(self).passwd_path == old(self).passwd_path,
            final(self).net_dir == old(self).net_dir,
            match index_of_id(old(self)@, id@) {
                Some(i) => r is Ok && final(self)@ == old(self)@.remove(i),
                None => {
                    &&& r matches Err(m) && m@ == missing_text(id@)
                    &&& final(self)@ == old(self)@
                },
            },
    {
        match self.position(id) {
            Some(i) => {
                self.spaces.remove(i);
                assert(self@ =~= old(self)@.remove(i as int));
                Ok(())
            },
            None => Err("спейс \"".to_owned().concat(id).concat("\" не найден")),
        }
    }
}

/// The registry row of a space.
pub open spec fn registry_row(c: ConfigView) -> RegistryRow {
    RegistryRow { id: c.id, cid: c.cid, label: c.label, color: c.color }
}

pub open spec fn registry_rows_of(spaces: Seq<ConfigView>) -> Seq<RegistryRow> {
    spaces.map_values(|c: ConfigView| registry_row(c))
}

/// What has to be written when the set of spaces has changed: the registry, and then the rules
/// of the bridge, where they can be rendered.
pub fn refresh(store: &Store) -> (r: (String, Result<String, String>))
    ensures
        is_written(r.0@, registry_document(registry_rows(registry_rows_of(store@)))),
        match first_oversized(registry_rows_of(store@)) {
            Some(cid) => r.1 matches Err(message) && message@ == oversized_text(cid),
            None => r.1 matches Ok(text) && text@ == nft_text(registry_rows_of(store@)),
        },
{
    let ghost all = registry_rows_of(store@);
    let mut entries: Vec<RegistryEntry> = Vec::new();
    assert(entry_rows(entries@) =~= all.take(0));
    for i in 0..store.spaces.len()
        invariant
            all == registry_rows_of(config_views(store.spaces@)),
            entry_rows(entries@) == all.take(i as int),
    {
        let c = &store.spaces[i];
        let e = RegistryEntry {
            id: c.id.clone(),
            cid: c.cid,
            label: c.label.clone(),
            color: c.color.clone(),
        };
        let ghost before = entry_rows(entries@);
        entries.push(e);
        assert(entry_rows(entries@) =~= before.push(e@));
        assert(all[i as int] == e@);
        assert(entry_rows(entries@) =~= all.take(i + 1));
    }
    assert(all.take(store.spaces@.len() as int) =~= all);
    (render_registry(&entries), render_nft(&entries))
}

// ---------------------------------------------------------------------------------------------
// What creating and removing keep
// ---------------------------------------------------------------------------------------------

pub open spec fn cids_differ(spaces: Seq<ConfigView>) -> bool {
    forall|i: int, j: int|
        0 <= i < j < spaces.len() ==> #[trigger] spaces[i].cid != #[trigger] spaces[j].cid
}

pub open spec fn ids_differ(spaces: Seq<ConfigView>) -> bool {
    forall|i: int, j: int|
        0 <= i < j < spaces.len() ==> #[trigger] spaces[i].id != #[trigger] spaces[j].id
}

/// Inserting one element puts it at one place and keeps the others in order.
proof fn lemma_insert_place(s: Seq<ConfigView>, x: ConfigView, leq: spec_fn(
    ConfigView,
    ConfigView,
) -> bool) -> (pos: int)
    ensures
        0 <= pos <= s.len(),
        insert_by(s, x, leq) == s.insert(pos, x),
    decreases s.len(),
{
    if s.len() == 0 || leq(s.last(), x) {
        assert(s.push(x) =~= s.insert(s.len() as int, x));
        s.len() as int
    } else {
        let pos = lemma_insert_place(s.drop_last(), x, leq);
        assert(s.drop_last().insert(pos, x).push(s.last()) =~= s.insert(pos, x));
        pos
    }
}

/// A created space shares neither its id nor its context id with another, stays clear of the
/// network machine, and finds its place in the order of ids.
pub proof fn creating_keeps_spaces_apart(
    spaces: Seq<ConfigView>,
    links: Seq<Seq<char>>,
    new: ConfigView,
)
    requires
        ids_differ(spaces),
        cids_differ(spaces),
        is_sorted(spaces, by_id()),
        space_with_id(spaces, new.id) is None,
        cid_is_free(spaces, links, new.cid),
    ensures
        ids_differ(insert_by(spaces, new, by_id())),
        cids_differ(insert_by(spaces, new, by_id())),
        is_sorted(insert_by(spaces, new, by_id()), by_id()),
        new.cid != MIYORI_NET_CID,
        space_with_id(insert_by(spaces, new, by_id()), new.id) == Some(new),
{
    lemma_by_id_is_order();
    lemma_insert_by_sorted(spaces, new, by_id());
    lemma_index_of_id(spaces, new.id);
    let pos = lemma_insert_place(spaces, new, by_id());
    let all = spaces.insert(pos, new);
    assert forall|i: int, j: int| 0 <= i < j < all.len() implies #[trigger] all[i].cid
        != #[trigger] all[j].cid && all[i].id != all[j].id by {
        let a = if i < pos {
            i
        } else {
            i - 1
        };
        let b = if j < pos {
            j
        } else {
            j - 1
        };
        if i == pos {
            assert(all[j] == spaces[b]);
        } else if j == pos {
            assert(all[i] == spaces[a]);
        } else {
            assert(all[i] == spaces[a]);
            assert(all[j] == spaces[b]);
        }
    }
    lemma_index_of_id(all, new.id);
    assert(all[pos] == new);
}

/// A list of spaces in the order of their ids is what is loaded from their files, in whatever
/// order the files are found.
pub proof fn the_list_is_loaded_again(spaces: Seq<ConfigView>, found: Seq<ConfigView>)
    requires
        ids_differ(spaces),
        is_sorted(spaces, by_id()),
        found.to_multiset() == spaces.to_multiset(),
    ensures
        sort_by(found, by_id()) == spaces,
{
    lemma_by_id_is_order();
    lemma_sort_by_sorted(found, by_id());
    lemma_sort_by_multiset(found, by_id());
    assert forall|i: int, j: int| 0 <= i < j < spaces.len() implies !(#[trigger] by_id()(
        spaces[i],
        spaces[j],
    ) && by_id()(spaces[j], spaces[i])) by {
        lemma_text_le_total(spaces[i].id, spaces[j].id);
        assert(spaces[i].id != spaces[j].id);
    }
    lemma_sorted_unique(spaces, sort_by(found, by_id()), by_id());
}

/// What holds of a store holds of it again after a creation: ids and context ids differ, the list
/// is in order, it is the old one and the new space, and it is what is loaded from the files of
/// the old spaces and of the new one, in whatever order they are found.
pub proof fn creating_keeps_the_store(
    spaces: Seq<ConfigView>,
    links: Seq<Seq<char>>,
    passwd: Seq<char>,
    passwd_path: Seq<char>,
    new: ConfigView,
    found: Seq<ConfigView>,
)
    requires
        ids_differ(spaces),
        cids_differ(spaces),
        is_sorted(spaces, by_id()),
        creation(spaces, new.id, links, passwd, passwd_path) == Ok::<u32, Seq<char>>(new.cid),
        found.to_multiset() == spaces.to_multiset().insert(new),
    ensures
        ({
            let after = insert_by(spaces, new, by_id());
            &&& ids_differ(after)
            &&& cids_differ(after)
            &&& is_sorted(after, by_id())
            &&& after.to_multiset() == spaces.to_multiset().insert(new)
            &&& sort_by(found, by_id()) == after
        }),
{
    the_lowest_free_cid(spaces, links);
    creating_keeps_spaces_apart(spaces, links, new);
    lemma_insert_by_multiset(spaces, new, by_id());
    the_list_is_loaded_again(insert_by(spaces, new, by_id()), found);
}

/// Loading leaves the spaces in the order of their ids, so the order does not depend on
/// whether a space was created or found.
pub proof fn loading_sorts(configs: Seq<ConfigView>)
    ensures
        is_sorted(sort_by(configs, by_id()), by_id()),
{
    lemma_by_id_is_order();
    lemma_sort_by_sorted(configs, by_id());
}

/// The context id of a removed space is free again once its tap is gone.
pub proof fn a_removed_cid_is_free_again(
    spaces: Seq<ConfigView>,
    links: Seq<Seq<char>>,
    i: int,
)
    requires
        cids_differ(spaces),
        0 <= i < spaces.len(),
        FIRST_CID <= spaces[i].cid <= LAST_CID,
        spaces[i].cid != MIYORI_NET_CID,
        !links.contains(tap_name(spaces[i].cid)),
    ensures
        cid_is_free(spaces.remove(i), links, spaces[i].cid),
{
    let rest = spaces.remove(i);
    assert forall|j: int| 0 <= j < rest.len() implies (#[trigger] rest[j]).cid != spaces[i].cid by {
        if j < i {
            assert(rest[j] == spaces[j]);
        } else {
            assert(rest[j] == spaces[j + 1]);
        }
    }
}

} // verus!
