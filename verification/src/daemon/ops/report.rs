//! What the daemon tells of spaces, profiles and the network.
use crate::daemon::net::{
    MiyoriNetStatus, PciStatus, RulesetStatus, TapStatus, BRIDGE, CAPTIVE_BRIDGE,
};
use crate::daemon::ops::shared::{
    internal, internal_error, load_manifest, manifest_path, manifest_path_of, no_profile, not_found,
    space_or_not_found, state_label, state_text, Manifest, ManifestRead, Refusal,
};
use crate::daemon::qemu::SpaceState;
use crate::daemon::store::{space_with_id, ConfigView, SpaceConfig, Store};
use crate::json::{
    array, bool_or_null, fields_view, find_field, get, items_view, lemma_find_field, object,
    opt_flag, opt_num, opt_str, put, text, text_or_null, u64_or_null, Json, JsonView,
};
use crate::manager::view::{profile_row_of, space_row_of, spaces_of, ProfileRowView, SpaceRowView};
use crate::order::{sort_by, sort_strings, text_le};
use crate::text::{opt_text, texts};
use vstd::prelude::*;

verus! {

// ---------------------------------------------------------------------------------------------
// The list of spaces
// ---------------------------------------------------------------------------------------------

/// A space, what could be read of the manifest of its profile, and its observed state.
pub struct ListedSpace {
    pub config: SpaceConfig,
    pub manifest: Option<Manifest>,
    pub state: SpaceState,
}

/// The level of isolation and its reason. A manifest that cannot be read hides no space.
pub open spec fn level_of(manifest: Option<Manifest>) -> (Seq<char>, Seq<char>) {
    match manifest {
        Some(m) => (m.isolation_level@, m.isolation_reason@),
        None => ("неизвестен"@, "манифест профиля не читается"@),
    }
}

pub open spec fn space_item(s: ListedSpace) -> JsonView {
    JsonView::Object(
        seq![
            ("id"@, JsonView::Str(s.config.id@)),
            ("profile"@, JsonView::Str(s.config.profile@)),
            ("state"@, JsonView::Str(state_text(s.state))),
            ("cid"@, JsonView::Unsigned(s.config.cid as u64)),
            ("isolation-level"@, JsonView::Str(level_of(s.manifest).0)),
            ("isolation-reason"@, JsonView::Str(level_of(s.manifest).1)),
            ("label"@, JsonView::Str(s.config.label@)),
            ("color"@, JsonView::Str(s.config.color@)),
            ("encrypted"@, JsonView::Bool(s.config.encrypted)),
        ],
    )
}

pub open spec fn list_reply(spaces: Seq<ListedSpace>) -> JsonView {
    JsonView::Array(spaces.map_values(|s: ListedSpace| space_item(s)))
}

fn space_to_json(s: &ListedSpace) -> (r: Json)
    ensures
        r@ == space_item(*s),
{
    let (level, reason) = match &s.manifest {
        Some(m) => (m.isolation_level.clone(), m.isolation_reason.clone()),
        None => ("неизвестен".to_owned(), "манифест профиля не читается".to_owned()),
    };
    let mut f: Vec<(String, Json)> = Vec::new();
    assert(fields_view(f@) =~= seq![]);
    put(&mut f, "id", Json::Str(s.config.id.clone()));
    put(&mut f, "profile", Json::Str(s.config.profile.clone()));
    put(&mut f, "state", text(state_label(s.state)));
    put(&mut f, "cid", Json::Unsigned(s.config.cid as u64));
    put(&mut f, "isolation-level", Json::Str(level));
    put(&mut f, "isolation-reason", Json::Str(reason));
    put(&mut f, "label", Json::Str(s.config.label.clone()));
    put(&mut f, "color", Json::Str(s.config.color.clone()));
    put(&mut f, "encrypted", Json::Bool(s.config.encrypted));
    assert(fields_view(f@) =~= space_item(*s)->Object_0);
    object(f)
}

/// The reply to the request for the list of spaces.
pub fn list(spaces: &Vec<ListedSpace>) -> (r: Json)
    ensures
        r@ == list_reply(spaces@),
{
    let ghost all = spaces@.map_values(|s: ListedSpace| space_item(s));
    let mut items: Vec<Json> = Vec::new();
    assert(items_view(items@) =~= all.take(0));
    for i in 0..spaces.len()
        invariant
            all == spaces@.map_values(|s: ListedSpace| space_item(s)),
            items_view(items@) == all.take(i as int),
    {
        let item = space_to_json(&spaces[i]);
        let ghost before = items_view(items@);
        items.push(item);
        assert(items_view(items@) =~= before.push(item@));
        assert(items_view(items@) =~= all.take(i + 1));
    }
    assert(all.take(spaces@.len() as int) =~= all);
    array(items)
}

/// The row that the manager shows of a listed space.
pub open spec fn shown_row(s: ListedSpace) -> SpaceRowView {
    SpaceRowView {
        id: s.config.id@,
        label: s.config.label@,
        color: s.config.color@,
        profile: s.config.profile@,
        state: state_text(s.state),
        level: level_of(s.manifest).0,
        level_reason: level_of(s.manifest).1,
        encrypted: s.config.encrypted,
    }
}

proof fn lemma_space_item(s: ListedSpace)
    ensures
        space_row_of(space_item(s)) == Some(shown_row(s)),
{
    reveal_strlit("id");
    reveal_strlit("profile");
    reveal_strlit("state");
    reveal_strlit("cid");
    reveal_strlit("isolation-level");
    reveal_strlit("isolation-reason");
    reveal_strlit("label");
    reveal_strlit("color");
    reveal_strlit("encrypted");
    let f = space_item(s)->Object_0;
    assert("id"@.len() == 2 && "profile"@.len() == 7 && "state"@.len() == 5 && "cid"@.len() == 3);
    assert("isolation-level"@.len() == 15 && "isolation-reason"@.len() == 16);
    assert("label"@.len() == 5 && "color"@.len() == 5 && "encrypted"@.len() == 9);
    assert("state"@[0] == 's' && "label"@[0] == 'l' && "color"@[0] == 'c');
    assert forall|i: int, j: int| 0 <= i < j < f.len() implies #[trigger] f[i].0
        != #[trigger] f[j].0 by {
        assert(f[i].0.len() != f[j].0.len() || f[i].0[0] != f[j].0[0]);
    }
    lemma_find_field(f, 0);
    lemma_find_field(f, 1);
    lemma_find_field(f, 2);
    lemma_find_field(f, 4);
    lemma_find_field(f, 5);
    lemma_find_field(f, 6);
    lemma_find_field(f, 7);
    lemma_find_field(f, 8);
}

/// What the daemon lists, the manager shows: every space, in the same order, with nothing lost.
pub proof fn the_manager_shows_what_is_listed(spaces: Seq<ListedSpace>)
    ensures
        spaces_of(Ok(list_reply(spaces))) == Ok::<Seq<SpaceRowView>, Seq<char>>(
            spaces.map_values(|s: ListedSpace| shown_row(s)),
        ),
{
    let items = list_reply(spaces)->Array_0;
    assert forall|i: int| 0 <= i < items.len() implies #[trigger] space_row_of(items[i]) == Some(
        shown_row(spaces[i]),
    ) by {
        lemma_space_item(spaces[i]);
    }
    assert(Seq::new(items.len(), |i: int| space_row_of(items[i])->0) =~= spaces.map_values(
        |s: ListedSpace| shown_row(s),
    ));
}

// ---------------------------------------------------------------------------------------------
// One space
// ---------------------------------------------------------------------------------------------

/// What was observed of a space.
pub struct SpaceFacts {
    pub state: SpaceState,
    /// Whether its machine was found among the processes.
    pub alive: bool,
    pub rss_kib: Option<u64>,
    pub uptime_secs: Option<u64>,
    pub data_qcow2_bytes: Option<u64>,
    pub log_tail: Vec<String>,
}

pub open spec fn text_items(lines: Seq<Seq<char>>) -> Seq<JsonView> {
    lines.map_values(|s: Seq<char>| JsonView::Str(s))
}

/// A number about a process that is not there is no fact.
pub open spec fn if_alive(alive: bool, n: Option<u64>) -> Option<u64> {
    if alive {
        n
    } else {
        None
    }
}

pub open spec fn describe_reply(
    state_dir: Seq<char>,
    c: ConfigView,
    m: Manifest,
    facts: SpaceFacts,
) -> JsonView {
    JsonView::Object(
        seq![
            ("id"@, JsonView::Str(c.id)),
            ("profile"@, JsonView::Str(c.profile)),
            ("state"@, JsonView::Str(state_text(facts.state))),
            ("cid"@, JsonView::Unsigned(c.cid as u64)),
            ("uid"@, JsonView::Unsigned(c.uid as u64)),
            ("digest"@, JsonView::Str(c.digest)),
            ("label"@, JsonView::Str(c.label)),
            ("color"@, JsonView::Str(c.color)),
            ("encrypted"@, JsonView::Bool(c.encrypted)),
            ("created"@, JsonView::Str(c.created)),
            ("description"@, JsonView::Str(m.description@)),
            ("app"@, app_item(m)),
            ("resources"@, resources_item(m)),
            ("data-qcow2-bytes"@, opt_num(facts.data_qcow2_bytes)),
            ("manifest-path"@, JsonView::Str(manifest_path_of(state_dir, c.profile))),
            ("isolation"@, isolation_item(m)),
            ("network"@, network_item(m)),
            ("clean-shutdown"@, opt_flag(c.clean_shutdown)),
            ("rss-kib"@, opt_num(if_alive(facts.alive, facts.rss_kib))),
            ("uptime-secs"@, opt_num(if_alive(facts.alive, facts.uptime_secs))),
            ("log-tail"@, JsonView::Array(text_items(texts(facts.log_tail@)))),
        ],
    )
}

pub open spec fn app_item(m: Manifest) -> JsonView {
    JsonView::Object(
        seq![
            ("mode"@, JsonView::Str(m.app_mode@)),
            ("command"@, JsonView::Str(m.app_command@)),
        ],
    )
}

fn app_json(m: &Manifest) -> (r: Json)
    ensures
        r@ == app_item(*m),
{
    let mut f: Vec<(String, Json)> = Vec::new();
    assert(fields_view(f@) =~= seq![]);
    put(&mut f, "mode", Json::Str(m.app_mode.clone()));
    put(&mut f, "command", Json::Str(m.app_command.clone()));
    assert(fields_view(f@) =~= app_item(*m)->Object_0);
    object(f)
}

pub open spec fn resources_item(m: Manifest) -> JsonView {
    JsonView::Object(
        seq![
            ("memory-mb"@, JsonView::Unsigned(m.memory_mb as u64)),
            ("cpus"@, JsonView::Unsigned(m.cpus as u64)),
            ("disk-gb"@, JsonView::Unsigned(m.disk_gb as u64)),
            ("data-mb"@, JsonView::Unsigned(m.data_mb as u64)),
        ],
    )
}

fn resources_json(m: &Manifest) -> (r: Json)
    ensures
        r@ == resources_item(*m),
{
    let mut f: Vec<(String, Json)> = Vec::new();
    assert(fields_view(f@) =~= seq![]);
    put(&mut f, "memory-mb", Json::Unsigned(m.memory_mb as u64));
    put(&mut f, "cpus", Json::Unsigned(m.cpus as u64));
    put(&mut f, "disk-gb", Json::Unsigned(m.disk_gb as u64));
    put(&mut f, "data-mb", Json::Unsigned(m.data_mb as u64));
    assert(fields_view(f@) =~= resources_item(*m)->Object_0);
    object(f)
}

pub open spec fn isolation_item(m: Manifest) -> JsonView {
    JsonView::Object(
        seq![
            ("level"@, JsonView::Str(m.isolation_level@)),
            ("gpu"@, JsonView::Str(m.isolation_gpu@)),
            ("reason"@, JsonView::Str(m.isolation_reason@)),
        ],
    )
}

fn isolation_json(m: &Manifest) -> (r: Json)
    ensures
        r@ == isolation_item(*m),
{
    let mut f: Vec<(String, Json)> = Vec::new();
    assert(fields_view(f@) =~= seq![]);
    put(&mut f, "level", Json::Str(m.isolation_level.clone()));
    put(&mut f, "gpu", Json::Str(m.isolation_gpu.clone()));
    put(&mut f, "reason", Json::Str(m.isolation_reason.clone()));
    assert(fields_view(f@) =~= isolation_item(*m)->Object_0);
    object(f)
}

pub open spec fn network_item(m: Manifest) -> JsonView {
    JsonView::Object(seq![("via"@, JsonView::Str(m.network_via@))])
}

fn network_json(m: &Manifest) -> (r: Json)
    ensures
        r@ == network_item(*m),
{
    let mut f: Vec<(String, Json)> = Vec::new();
    assert(fields_view(f@) =~= seq![]);
    put(&mut f, "via", Json::Str(m.network_via.clone()));
    assert(fields_view(f@) =~= network_item(*m)->Object_0);
    object(f)
}

fn lines_json(lines: &Vec<String>) -> (r: Json)
    ensures
        r@ == JsonView::Array(text_items(texts(lines@))),
{
    let ghost all = text_items(texts(lines@));
    let mut items: Vec<Json> = Vec::new();
    assert(items_view(items@) =~= all.take(0));
    for i in 0..lines.len()
        invariant
            all == text_items(texts(lines@)),
            items_view(items@) == all.take(i as int),
    {
        let item = Json::Str(lines[i].clone());
        let ghost before = items_view(items@);
        items.push(item);
        assert(items_view(items@) =~= before.push(item@));
        assert(items_view(items@) =~= all.take(i + 1));
    }
    assert(all.take(lines@.len() as int) =~= all);
    array(items)
}

fn only_if(alive: bool, n: Option<u64>) -> (r: Option<u64>)
    ensures
        r == if_alive(alive, n),
{
    if alive {
        n
    } else {
        None
    }
}

#[verifier::rlimit(60)]
fn describe_json(state_dir: &str, c: &SpaceConfig, m: &Manifest, facts: &SpaceFacts) -> (r: Json)
    ensures
        r@ == describe_reply(state_dir@, c@, *m, *facts),
{
    let mut f: Vec<(String, Json)> = Vec::new();
    assert(fields_view(f@) =~= seq![]);
    put(&mut f, "id", Json::Str(c.id.clone()));
    put(&mut f, "profile", Json::Str(c.profile.clone()));
    put(&mut f, "state", text(state_label(facts.state)));
    put(&mut f, "cid", Json::Unsigned(c.cid as u64));
    put(&mut f, "uid", Json::Unsigned(c.uid as u64));
    put(&mut f, "digest", Json::Str(c.digest.clone()));
    put(&mut f, "label", Json::Str(c.label.clone()));
    put(&mut f, "color", Json::Str(c.color.clone()));
    put(&mut f, "encrypted", Json::Bool(c.encrypted));
    put(&mut f, "created", Json::Str(c.created.clone()));
    put(&mut f, "description", Json::Str(m.description.clone()));
    put(&mut f, "app", app_json(m));
    put(&mut f, "resources", resources_json(m));
    put(&mut f, "data-qcow2-bytes", u64_or_null(facts.data_qcow2_bytes));
    put(&mut f, "manifest-path", Json::Str(manifest_path(state_dir, c.profile.as_str())));
    put(&mut f, "isolation", isolation_json(m));
    put(&mut f, "network", network_json(m));
    put(&mut f, "clean-shutdown", bool_or_null(c.clean_shutdown));
    put(&mut f, "rss-kib", u64_or_null(only_if(facts.alive, facts.rss_kib)));
    put(&mut f, "uptime-secs", u64_or_null(only_if(facts.alive, facts.uptime_secs)));
    put(&mut f, "log-tail", lines_json(&facts.log_tail));
    assert(fields_view(f@) =~= describe_reply(state_dir@, c@, *m, *facts)->Object_0);
    object(f)
}

/// The reply to the request for the description of a space.
pub fn describe(
    state_dir: &str,
    store: &Store,
    id: &str,
    manifest: ManifestRead,
    facts: &SpaceFacts,
) -> (r: Result<Json, Refusal>)
    ensures
        match space_with_id(store@, id@) {
            None => r matches Err(e) && e@ == not_found(id@),
            Some(c) => match manifest {
                ManifestRead::Missing => r matches Err(e) && e@ == no_profile(c.profile),
                ManifestRead::Unreadable => r matches Err(e) && e@ == internal(),
                ManifestRead::Found(m) => r matches Ok(v) && v@ == describe_reply(
                    state_dir@,
                    c,
                    m,
                    *facts,
                ),
            },
        },
{
    let space = space_or_not_found(store, id)?;
    let m = load_manifest(space.profile.as_str(), manifest)?;
    Ok(describe_json(state_dir, &space, &m, facts))
}

// ---------------------------------------------------------------------------------------------
// The profiles
// ---------------------------------------------------------------------------------------------

/// What came of reading the directory of the profiles.
pub enum ProfilesRead {
    Missing,
    Unreadable,
    Found(Vec<String>),
}

/// The names of the profiles, in order. Where there is no directory there are no profiles; one
/// that cannot be read is not passed off as empty.
pub fn profiles(read: ProfilesRead) -> (r: Result<Vec<String>, Refusal>)
    ensures
        match read {
            ProfilesRead::Missing => r matches Ok(names) && names@.len() == 0,
            ProfilesRead::Unreadable => r matches Err(e) && e@ == internal(),
            ProfilesRead::Found(all) => r matches Ok(names) && names@ == sort_by(
                all@,
                |a: String, b: String| text_le(a@, b@),
            ),
        },
{
    match read {
        ProfilesRead::Missing => Ok(Vec::new()),
        ProfilesRead::Unreadable => Err(internal_error()),
        ProfilesRead::Found(all) => Ok(sort_strings(all)),
    }
}

/// What is told of a profile. A manifest that cannot be read drops no profile from the list.
pub open spec fn profile_item(
    profile: Seq<char>,
    template: bool,
    manifest: Result<Manifest, String>,
) -> JsonView {
    match manifest {
        Ok(m) => JsonView::Object(
            seq![
                ("profile"@, JsonView::Str(profile)),
                ("template"@, JsonView::Bool(template)),
                ("manifest-ok"@, JsonView::Bool(true)),
                ("isolation-level"@, JsonView::Str(m.isolation_level@)),
                ("isolation-reason"@, JsonView::Str(m.isolation_reason@)),
                ("command"@, JsonView::Str(m.app_command@)),
                ("manifest-error"@, JsonView::Null),
            ],
        ),
        Err(e) => JsonView::Object(
            seq![
                ("profile"@, JsonView::Str(profile)),
                ("template"@, JsonView::Bool(template)),
                ("manifest-ok"@, JsonView::Bool(false)),
                ("isolation-level"@, JsonView::Null),
                ("isolation-reason"@, JsonView::Null),
                ("command"@, JsonView::Null),
                ("manifest-error"@, JsonView::Str(e@)),
            ],
        ),
    }
}

/// The item of a profile: whether it has an image, and its manifest or the words for why that
/// cannot be read.
pub fn describe_profile(profile: &str, template: bool, manifest: &Result<Manifest, String>) -> (r:
    Json)
    ensures
        r@ == profile_item(profile@, template, *manifest),
{
    let mut f: Vec<(String, Json)> = Vec::new();
    assert(fields_view(f@) =~= seq![]);
    put(&mut f, "profile", text(profile));
    put(&mut f, "template", Json::Bool(template));
    match manifest {
        Ok(m) => {
            put(&mut f, "manifest-ok", Json::Bool(true));
            put(&mut f, "isolation-level", Json::Str(m.isolation_level.clone()));
            put(&mut f, "isolation-reason", Json::Str(m.isolation_reason.clone()));
            put(&mut f, "command", Json::Str(m.app_command.clone()));
            put(&mut f, "manifest-error", Json::Null);
        },
        Err(e) => {
            put(&mut f, "manifest-ok", Json::Bool(false));
            put(&mut f, "isolation-level", Json::Null);
            put(&mut f, "isolation-reason", Json::Null);
            put(&mut f, "command", Json::Null);
            put(&mut f, "manifest-error", Json::Str(e.clone()));
        },
    }
    assert(fields_view(f@) =~= profile_item(profile@, template, *manifest)->Object_0);
    object(f)
}

/// The row that the manager shows of a profile.
pub open spec fn shown_profile(
    profile: Seq<char>,
    template: bool,
    manifest: Result<Manifest, String>,
) -> ProfileRowView {
    ProfileRowView {
        profile,
        template,
        manifest_ok: manifest is Ok,
        isolation_level: match manifest {
            Ok(m) => Some(m.isolation_level@),
            Err(_) => None,
        },
        manifest_error: match manifest {
            Ok(_) => None,
            Err(e) => Some(e@),
        },
    }
}

/// What the daemon tells of a profile, the manager shows.
pub proof fn the_manager_shows_the_profile(
    profile: Seq<char>,
    template: bool,
    manifest: Result<Manifest, String>,
)
    ensures
        profile_row_of(profile_item(profile, template, manifest)) == Some(
            shown_profile(profile, template, manifest),
        ),
{
    reveal_strlit("profile");
    reveal_strlit("template");
    reveal_strlit("manifest-ok");
    reveal_strlit("isolation-level");
    reveal_strlit("isolation-reason");
    reveal_strlit("command");
    reveal_strlit("manifest-error");
    let f = profile_item(profile, template, manifest)->Object_0;
    assert("profile"@.len() == 7 && "template"@.len() == 8 && "manifest-ok"@.len() == 11);
    assert("isolation-level"@.len() == 15 && "isolation-reason"@.len() == 16);
    assert("command"@.len() == 7 && "manifest-error"@.len() == 14);
    assert("profile"@[0] == 'p' && "command"@[0] == 'c');
    assert forall|i: int, j: int| 0 <= i < j < f.len() implies #[trigger] f[i].0
        != #[trigger] f[j].0 by {
        assert(f[i].0.len() != f[j].0.len() || f[i].0[0] != f[j].0[0]);
    }
    lemma_find_field(f, 0);
    lemma_find_field(f, 1);
    lemma_find_field(f, 2);
    lemma_find_field(f, 3);
    lemma_find_field(f, 6);
}

// ---------------------------------------------------------------------------------------------
// The network
// ---------------------------------------------------------------------------------------------

pub open spec fn tap_item(t: TapStatus) -> JsonView {
    JsonView::Object(
        seq![("name"@, JsonView::Str(t.name@)), ("isolated"@, opt_flag(t.isolated))],
    )
}

pub open spec fn opt_pid(pid: Option<u32>) -> Option<u64> {
    match pid {
        Some(p) => Some(p as u64),
        None => None,
    }
}

pub open spec fn opt_size(n: Option<usize>) -> Option<u64> {
    match n {
        Some(n) => Some(n as u64),
        None => None,
    }
}

pub open spec fn tunnel_item(net: MiyoriNetStatus) -> JsonView {
    match net.tunnel {
        Some(t) => JsonView::Object(
            seq![
                ("ifc"@, JsonView::Str(t.ifc@)),
                ("set"@, JsonView::Str(t.set@)),
                ("route"@, JsonView::Str(t.route@)),
            ],
        ),
        None => JsonView::Null,
    }
}

pub open spec fn net_reply(
    bridge: bool,
    captive: bool,
    taps: Seq<TapStatus>,
    pci: PciStatus,
    net: MiyoriNetStatus,
    rules: RulesetStatus,
) -> JsonView {
    JsonView::Object(
        seq![
            ("bridges"@, bridges_item(bridge, captive)),
            ("taps"@, JsonView::Array(taps.map_values(|t: TapStatus| tap_item(t)))),
            ("uplink-pci"@, pci_item(pci)),
            ("miyori-net"@, machine_item(net)),
            ("ruleset"@, rules_item(rules)),
            ("killswitch_counters"@, JsonView::Str("недоступны с хоста"@)),
        ],
    )
}

pub open spec fn bridges_item(bridge: bool, captive: bool) -> JsonView {
    JsonView::Object(
        seq![
            (BRIDGE@, JsonView::Bool(bridge)),
            (CAPTIVE_BRIDGE@, JsonView::Bool(captive)),
        ],
    )
}

fn bridges_json(bridge: bool, captive: bool) -> (r: Json)
    ensures
        r@ == bridges_item(bridge, captive),
{
    let mut f: Vec<(String, Json)> = Vec::new();
    assert(fields_view(f@) =~= seq![]);
    put(&mut f, BRIDGE, Json::Bool(bridge));
    put(&mut f, CAPTIVE_BRIDGE, Json::Bool(captive));
    assert(fields_view(f@) =~= bridges_item(bridge, captive)->Object_0);
    object(f)
}

fn taps_json(taps: &Vec<TapStatus>) -> (r: Json)
    ensures
        r@ == JsonView::Array(taps@.map_values(|t: TapStatus| tap_item(t))),
{
    let ghost all = taps@.map_values(|t: TapStatus| tap_item(t));
    let mut items: Vec<Json> = Vec::new();
    assert(items_view(items@) =~= all.take(0));
    for i in 0..taps.len()
        invariant
            all == taps@.map_values(|t: TapStatus| tap_item(t)),
            items_view(items@) == all.take(i as int),
    {
        let mut f: Vec<(String, Json)> = Vec::new();
        assert(fields_view(f@) =~= seq![]);
        put(&mut f, "name", Json::Str(taps[i].name.clone()));
        put(&mut f, "isolated", bool_or_null(taps[i].isolated));
        assert(fields_view(f@) =~= tap_item(taps@[i as int])->Object_0);
        let item = object(f);
        let ghost before = items_view(items@);
        items.push(item);
        assert(items_view(items@) =~= before.push(item@));
        assert(items_view(items@) =~= all.take(i + 1));
    }
    assert(all.take(taps@.len() as int) =~= all);
    array(items)
}

pub open spec fn pci_item(pci: PciStatus) -> JsonView {
    JsonView::Object(
        seq![
            ("address"@, JsonView::Str(pci.address@)),
            ("present"@, JsonView::Bool(pci.present)),
            ("driver"@, opt_str(opt_text(pci.driver))),
        ],
    )
}

fn pci_json(pci: &PciStatus) -> (r: Json)
    ensures
        r@ == pci_item(*pci),
{
    let mut f: Vec<(String, Json)> = Vec::new();
    assert(fields_view(f@) =~= seq![]);
    put(&mut f, "address", Json::Str(pci.address.clone()));
    put(&mut f, "present", Json::Bool(pci.present));
    put(&mut f, "driver", text_or_null(&pci.driver));
    assert(fields_view(f@) =~= pci_item(*pci)->Object_0);
    object(f)
}

fn tunnel_json(net: &MiyoriNetStatus) -> (r: Json)
    ensures
        r@ == tunnel_item(*net),
{
    match &net.tunnel {
        Some(t) => {
            let mut f: Vec<(String, Json)> = Vec::new();
            assert(fields_view(f@) =~= seq![]);
            put(&mut f, "ifc", Json::Str(t.ifc.clone()));
            put(&mut f, "set", Json::Str(t.set.clone()));
            put(&mut f, "route", Json::Str(t.route.clone()));
            assert(fields_view(f@) =~= tunnel_item(*net)->Object_0);
            object(f)
        },
        None => Json::Null,
    }
}

pub open spec fn machine_item(net: MiyoriNetStatus) -> JsonView {
    JsonView::Object(
        seq![
            ("running"@, JsonView::Bool(net.running)),
            ("pid"@, opt_num(opt_pid(net.pid))),
            ("uplink"@, opt_str(opt_text(net.uplink))),
            ("tunnel"@, tunnel_item(net)),
        ],
    )
}

fn machine_json(net: &MiyoriNetStatus) -> (r: Json)
    ensures
        r@ == machine_item(*net),
{
    let pid = match net.pid {
        Some(p) => Some(p as u64),
        None => None,
    };
    let mut f: Vec<(String, Json)> = Vec::new();
    assert(fields_view(f@) =~= seq![]);
    put(&mut f, "running", Json::Bool(net.running));
    put(&mut f, "pid", u64_or_null(pid));
    put(&mut f, "uplink", text_or_null(&net.uplink));
    put(&mut f, "tunnel", tunnel_json(net));
    assert(fields_view(f@) =~= machine_item(*net)->Object_0);
    object(f)
}

pub open spec fn rules_item(rules: RulesetStatus) -> JsonView {
    JsonView::Object(
        seq![
            ("available"@, JsonView::Bool(rules.available)),
            ("text"@, JsonView::Str(rules.text@)),
            ("truncated-from"@, opt_num(opt_size(rules.truncated_from))),
        ],
    )
}

fn rules_json(rules: &RulesetStatus) -> (r: Json)
    ensures
        r@ == rules_item(*rules),
{
    let total = match rules.truncated_from {
        Some(n) => Some(n as u64),
        None => None,
    };
    let mut f: Vec<(String, Json)> = Vec::new();
    assert(fields_view(f@) =~= seq![]);
    put(&mut f, "available", Json::Bool(rules.available));
    put(&mut f, "text", Json::Str(rules.text.clone()));
    put(&mut f, "truncated-from", u64_or_null(total));
    assert(fields_view(f@) =~= rules_item(*rules)->Object_0);
    object(f)
}

/// The reply to the request for the state of the network. The counters of the network machine
/// cannot be read from the host, and the reply says so.
pub fn net_status(
    bridge: bool,
    captive: bool,
    taps: &Vec<TapStatus>,
    pci: &PciStatus,
    net: &MiyoriNetStatus,
    rules: &RulesetStatus,
) -> (r: Json)
    ensures
        r@ == net_reply(bridge, captive, taps@, *pci, *net, *rules),
{
    let mut f: Vec<(String, Json)> = Vec::new();
    assert(fields_view(f@) =~= seq![]);
    put(&mut f, "bridges", bridges_json(bridge, captive));
    put(&mut f, "taps", taps_json(taps));
    put(&mut f, "uplink-pci", pci_json(pci));
    put(&mut f, "miyori-net", machine_json(net));
    put(&mut f, "ruleset", rules_json(rules));
    put(&mut f, "killswitch_counters", text("недоступны с хоста"));
    assert(fields_view(f@) =~= net_reply(
        bridge,
        captive,
        taps@,
        *pci,
        *net,
        *rules,
    )->Object_0);
    object(f)
}

/// A space is listed under its number and its state, and in full even where the manifest of its
/// profile cannot be read: only the level is then unknown.
pub proof fn a_space_is_listed_in_full(s: ListedSpace)
    ensures
        ({
            let item = space_item(s);
            &&& get(item, "id"@) == Some(JsonView::Str(s.config.id@))
            &&& get(item, "cid"@) == Some(JsonView::Unsigned(s.config.cid as u64))
            &&& s.state == SpaceState::Running ==> get(item, "state"@) == Some(
                JsonView::Str("running"@),
            )
            &&& s.state == SpaceState::Stopped ==> get(item, "state"@) == Some(
                JsonView::Str("stopped"@),
            )
            &&& s.state == SpaceState::Unresponsive ==> get(item, "state"@) == Some(
                JsonView::Str("unresponsive"@),
            )
            &&& (s.manifest matches Some(m) ==> get(item, "isolation-level"@) == Some(
                JsonView::Str(m.isolation_level@),
            ) && get(item, "isolation-reason"@) == Some(JsonView::Str(m.isolation_reason@)))
            &&& s.manifest is None ==> get(item, "isolation-level"@) == Some(
                JsonView::Str("неизвестен"@),
            ) && get(item, "isolation-reason"@) == Some(
                JsonView::Str("манифест профиля не читается"@),
            )
        }),
{
    lemma_space_item(s);
    let f = space_item(s)->Object_0;
    reveal_strlit("id");
    reveal_strlit("profile");
    reveal_strlit("state");
    reveal_strlit("cid");
    assert("id"@.len() == 2 && "profile"@.len() == 7 && "state"@.len() == 5 && "cid"@.len() == 3);
    reveal_with_fuel(find_field, 5);
}

/// What the console of the network machine said of its tunnel is passed on under the names of its
/// three fields; without a tunnel there is nothing under them.
pub proof fn a_tunnel_is_passed_on(net: MiyoriNetStatus)
    ensures
        net.tunnel matches Some(t) ==> {
            &&& get(tunnel_item(net), "ifc"@) == Some(JsonView::Str(t.ifc@))
            &&& get(tunnel_item(net), "set"@) == Some(JsonView::Str(t.set@))
            &&& get(tunnel_item(net), "route"@) == Some(JsonView::Str(t.route@))
        },
        net.tunnel is None ==> tunnel_item(net) == JsonView::Null,
{
    reveal_strlit("ifc");
    reveal_strlit("set");
    reveal_strlit("route");
    assert("ifc"@.len() == 3 && "set"@.len() == 3 && "route"@.len() == 5);
    assert("ifc"@[0] == 'i' && "set"@[0] == 's');
    reveal_with_fuel(find_field, 4);
}

/// A profile is told with the command and the level of its manifest, or with what is wrong with it;
/// never with both.
pub proof fn a_profile_is_told_in_full(
    profile: Seq<char>,
    template: bool,
    manifest: Result<Manifest, String>,
)
    ensures
        ({
            let item = profile_item(profile, template, manifest);
            &&& (manifest matches Ok(m) ==> {
                &&& get(item, "isolation-reason"@) == Some(JsonView::Str(m.isolation_reason@))
                &&& get(item, "command"@) == Some(JsonView::Str(m.app_command@))
                &&& get(item, "manifest-error"@) == Some(JsonView::Null)
            })
            &&& (manifest matches Err(e) ==> {
                &&& get(item, "isolation-reason"@) == Some(JsonView::Null)
                &&& get(item, "command"@) == Some(JsonView::Null)
                &&& get(item, "manifest-error"@) == Some(JsonView::Str(e@))
            })
        }),
{
    reveal_strlit("profile");
    reveal_strlit("template");
    reveal_strlit("manifest-ok");
    reveal_strlit("isolation-level");
    reveal_strlit("isolation-reason");
    reveal_strlit("command");
    reveal_strlit("manifest-error");
    assert("profile"@.len() == 7 && "template"@.len() == 8 && "manifest-ok"@.len() == 11);
    assert("isolation-level"@.len() == 15 && "isolation-reason"@.len() == 16);
    assert("command"@.len() == 7 && "manifest-error"@.len() == 14);
    assert("profile"@[0] == 'p' && "command"@[0] == 'c');
    reveal_with_fuel(find_field, 8);
}

} // verus!
