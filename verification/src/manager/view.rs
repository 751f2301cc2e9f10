//! Replies of the daemon as rows of text.
use crate::json::{
    array_of, as_array, as_bool, as_i64, as_str, as_u64, bool_of, get, get2, i64_of, items_view,
    lemma_view, opt_view, str_of, str_or, u64_of, Json, JsonView,
};
use crate::text::{
    chars_of, dec, dec_int, i64_to_string, opt_text, str_equal, str_trim, texts, trim,
    u64_to_string,
};
use vstd::prelude::*;

verus! {

/// What the daemon answered to a request that reached it.
#[derive(Debug, PartialEq, Eq)]
pub enum Reply {
    Value(Json),
    Refusal { code: String, message: String },
}

/// The value of an answer, or the words in which its absence is shown.
pub open spec fn answer(reply: Result<Reply, String>) -> Result<JsonView, Seq<char>> {
    match reply {
        Err(transport) => Err(transport@),
        Ok(Reply::Refusal { code, message }) => Err(code@ + ": "@ + message@),
        Ok(Reply::Value(value)) => Ok(value@),
    }
}

/// The words for a value that is not there.
pub open spec fn or_dash(s: Option<Seq<char>>) -> Seq<char> {
    match s {
        Some(s) => s,
        None => "—"@,
    }
}

pub open spec fn or_false(b: Option<bool>) -> bool {
    b == Some(true)
}

pub open spec fn yes_no(b: bool) -> Seq<char> {
    if b {
        "да"@
    } else {
        "нет"@
    }
}

pub fn reply_to_value(reply: Result<Reply, String>) -> (r: Result<Json, String>)
    ensures
        match (r, answer(reply)) {
            (Ok(v), Ok(w)) => v@ == w,
            (Err(m), Err(w)) => m@ == w,
            _ => false,
        },
{
    match reply {
        Err(transport) => Err(transport),
        Ok(Reply::Refusal { code, message }) => Err(code.concat(": ").concat(message.as_str())),
        Ok(Reply::Value(value)) => Ok(value),
    }
}

fn is_true(b: Option<bool>) -> (r: bool)
    ensures
        r == or_false(b),
{
    match b {
        Some(b) => b,
        None => false,
    }
}

fn yes_or_no(b: bool) -> (r: String)
    ensures
        r@ == yes_no(b),
{
    if b {
        "да".to_owned()
    } else {
        "нет".to_owned()
    }
}

// ---------------------------------------------------------------------------------------------
// The list of spaces
// ---------------------------------------------------------------------------------------------

#[derive(Debug, Clone, PartialEq, Eq)]
pub struct SpaceRow {
    pub id: String,
    pub label: String,
    pub color: String,
    pub profile: String,
    pub state: String,
    pub level: String,
    pub level_reason: String,
    pub encrypted: bool,
}

#[verifier::ext_equal]
pub struct SpaceRowView {
    pub id: Seq<char>,
    pub label: Seq<char>,
    pub color: Seq<char>,
    pub profile: Seq<char>,
    pub state: Seq<char>,
    pub level: Seq<char>,
    pub level_reason: Seq<char>,
    pub encrypted: bool,
}

impl View for SpaceRow {
    type V = SpaceRowView;

    open spec fn view(&self) -> SpaceRowView {
        SpaceRowView {
            id: self.id@,
            label: self.label@,
            color: self.color@,
            profile: self.profile@,
            state: self.state@,
            level: self.level@,
            level_reason: self.level_reason@,
            encrypted: self.encrypted,
        }
    }
}

impl SpaceRow {
    pub fn copy(&self) -> (r: SpaceRow)
        ensures
            r@ == self@,
    {
        SpaceRow {
            id: self.id.clone(),
            label: self.label.clone(),
            color: self.color.clone(),
            profile: self.profile.clone(),
            state: self.state.clone(),
            level: self.level.clone(),
            level_reason: self.level_reason.clone(),
            encrypted: self.encrypted,
        }
    }
}

/// The contents of rows.
pub open spec fn row_views(rows: Seq<SpaceRow>) -> Seq<SpaceRowView> {
    rows.map_values(|r: SpaceRow| r@)
}

#[derive(Debug, PartialEq, Eq)]
pub enum SpacesView {
    Spaces(Vec<SpaceRow>),
    Unavailable { message: String },
}

impl View for SpacesView {
    type V = Result<Seq<SpaceRowView>, Seq<char>>;

    open spec fn view(&self) -> Result<Seq<SpaceRowView>, Seq<char>> {
        match self {
            SpacesView::Spaces(rows) => Ok(row_views(rows@)),
            SpacesView::Unavailable { message } => Err(message@),
        }
    }
}

/// The row of one space; nothing where one of the texts is missing. A daemon that does not say
/// whether a space is encrypted has spaces that are not.
pub open spec fn space_row_of(item: JsonView) -> Option<SpaceRowView> {
    match (
        as_str(get(item, "id"@)),
        as_str(get(item, "label"@)),
        as_str(get(item, "color"@)),
        as_str(get(item, "profile"@)),
        as_str(get(item, "state"@)),
        as_str(get(item, "isolation-level"@)),
        as_str(get(item, "isolation-reason"@)),
    ) {
        (
            Some(id),
            Some(label),
            Some(color),
            Some(profile),
            Some(state),
            Some(level),
            Some(level_reason),
        ) => Some(
            SpaceRowView {
                id,
                label,
                color,
                profile,
                state,
                level,
                level_reason,
                encrypted: or_false(as_bool(get(item, "encrypted"@))),
            },
        ),
        _ => None,
    }
}

/// Every space becomes a row, or none is shown.
pub open spec fn spaces_of(reply: Result<JsonView, Seq<char>>) -> Result<
    Seq<SpaceRowView>,
    Seq<char>,
> {
    match reply {
        Err(message) => Err(message),
        Ok(JsonView::Array(items)) => if forall|i: int|
            0 <= i < items.len() ==> (#[trigger] space_row_of(items[i])) is Some {
            Ok(Seq::new(items.len(), |i: int| space_row_of(items[i])->0))
        } else {
            Err("демон прислал спейс без обязательного поля"@)
        },
        Ok(_) => Err("демон вернул неожиданный ответ вместо списка спейсов"@),
    }
}

fn space_row(item: &Json) -> (r: Option<SpaceRow>)
    ensures
        r is Some <==> space_row_of(item@) is Some,
        r matches Some(row) ==> Some(row@) == space_row_of(item@),
{
    let id = str_of(item.get("id"))?;
    let label = str_of(item.get("label"))?;
    let color = str_of(item.get("color"))?;
    let profile = str_of(item.get("profile"))?;
    let state = str_of(item.get("state"))?;
    let level = str_of(item.get("isolation-level"))?;
    let level_reason = str_of(item.get("isolation-reason"))?;
    let encrypted = is_true(bool_of(item.get("encrypted")));
    Some(SpaceRow { id, label, color, profile, state, level, level_reason, encrypted })
}

pub fn spaces_view(reply: Result<Reply, String>) -> (r: SpacesView)
    ensures
        r@ == spaces_of(answer(reply)),
{
    let value = match reply_to_value(reply) {
        Ok(value) => value,
        Err(message) => return SpacesView::Unavailable { message },
    };
    proof {
        lemma_view(value);
    }
    let items = match &value {
        Json::Array(items) => items,
        _ => {
            return SpacesView::Unavailable {
                message: "демон вернул неожиданный ответ вместо списка спейсов".to_owned(),
            };
        },
    };
    let ghost all = items_view(items@);
    let mut rows: Vec<SpaceRow> = Vec::new();
    for i in 0..items.len()
        invariant
            all == items_view(items@),
            answer(reply) == Ok::<JsonView, Seq<char>>(JsonView::Array(all)),
            rows@.len() == i,
            forall|j: int| 0 <= j < i ==> Some(rows@[j]@) == #[trigger] space_row_of(all[j]),
    {
        assert(all[i as int] == items@[i as int]@);
        match space_row(&items[i]) {
            Some(row) => rows.push(row),
            None => {
                return SpacesView::Unavailable {
                    message: "демон прислал спейс без обязательного поля".to_owned(),
                };
            },
        }
    }
    assert(row_views(rows@) =~= Seq::new(all.len(), |i: int| space_row_of(all[i])->0));
    SpacesView::Spaces(rows)
}

// ---------------------------------------------------------------------------------------------
// The list of profiles
// ---------------------------------------------------------------------------------------------

#[derive(Debug, Clone, PartialEq, Eq)]
pub struct ProfileRow {
    pub profile: String,
    pub template: bool,
    pub manifest_ok: bool,
    pub isolation_level: Option<String>,
    pub manifest_error: Option<String>,
}

#[verifier::ext_equal]
pub struct ProfileRowView {
    pub profile: Seq<char>,
    pub template: bool,
    pub manifest_ok: bool,
    pub isolation_level: Option<Seq<char>>,
    pub manifest_error: Option<Seq<char>>,
}

impl View for ProfileRow {
    type V = ProfileRowView;

    open spec fn view(&self) -> ProfileRowView {
        ProfileRowView {
            profile: self.profile@,
            template: self.template,
            manifest_ok: self.manifest_ok,
            isolation_level: opt_text(self.isolation_level),
            manifest_error: opt_text(self.manifest_error),
        }
    }
}

impl ProfileRow {
    pub fn copy(&self) -> (r: ProfileRow)
        ensures
            r@ == self@,
    {
        ProfileRow {
            profile: self.profile.clone(),
            template: self.template,
            manifest_ok: self.manifest_ok,
            isolation_level: match &self.isolation_level {
                Some(s) => Some(s.clone()),
                None => None,
            },
            manifest_error: match &self.manifest_error {
                Some(s) => Some(s.clone()),
                None => None,
            },
        }
    }
}

pub open spec fn profile_views(rows: Seq<ProfileRow>) -> Seq<ProfileRowView> {
    rows.map_values(|r: ProfileRow| r@)
}

#[derive(Debug, PartialEq, Eq)]
pub enum ProfilesView {
    Profiles(Vec<ProfileRow>),
    Unavailable { message: String },
}

impl View for ProfilesView {
    type V = Result<Seq<ProfileRowView>, Seq<char>>;

    open spec fn view(&self) -> Result<Seq<ProfileRowView>, Seq<char>> {
        match self {
            ProfilesView::Profiles(rows) => Ok(profile_views(rows@)),
            ProfilesView::Unavailable { message } => Err(message@),
        }
    }
}

/// A text that may be null: a missing key and a value of another kind are no such text.
pub open spec fn nullable(v: Option<JsonView>) -> Option<Option<Seq<char>>> {
    match v {
        Some(JsonView::Null) => Some(None),
        Some(JsonView::Str(s)) => Some(Some(s)),
        _ => None,
    }
}

pub open spec fn profile_row_of(item: JsonView) -> Option<ProfileRowView> {
    match (
        as_str(get(item, "profile"@)),
        as_bool(get(item, "template"@)),
        as_bool(get(item, "manifest-ok"@)),
        nullable(get(item, "isolation-level"@)),
        nullable(get(item, "manifest-error"@)),
    ) {
        (
            Some(profile),
            Some(template),
            Some(manifest_ok),
            Some(isolation_level),
            Some(manifest_error),
        ) => Some(
            ProfileRowView { profile, template, manifest_ok, isolation_level, manifest_error },
        ),
        _ => None,
    }
}

pub open spec fn profiles_of(reply: Result<JsonView, Seq<char>>) -> Result<
    Seq<ProfileRowView>,
    Seq<char>,
> {
    match reply {
        Err(message) => Err(message),
        Ok(JsonView::Array(items)) => if forall|i: int|
            0 <= i < items.len() ==> (#[trigger] profile_row_of(items[i])) is Some {
            Ok(Seq::new(items.len(), |i: int| profile_row_of(items[i])->0))
        } else {
            Err("демон прислал профиль без обязательного поля"@)
        },
        Ok(_) => Err("демон вернул неожиданный ответ вместо списка профилей"@),
    }
}

fn nullable_of(v: Option<&Json>) -> (r: Option<Option<String>>)
    ensures
        match (r, nullable(opt_view(v))) {
            (Some(s), Some(t)) => opt_text(s) == t,
            (None, None) => true,
            _ => false,
        },
{
    match v {
        Some(Json::Null) => Some(None),
        Some(Json::Str(s)) => Some(Some(s.clone())),
        _ => None,
    }
}

fn profile_row(item: &Json) -> (r: Option<ProfileRow>)
    ensures
        r is Some <==> profile_row_of(item@) is Some,
        r matches Some(row) ==> Some(row@) == profile_row_of(item@),
{
    let profile = str_of(item.get("profile"))?;
    let template = bool_of(item.get("template"))?;
    let manifest_ok = bool_of(item.get("manifest-ok"))?;
    let isolation_level = nullable_of(item.get("isolation-level"))?;
    let manifest_error = nullable_of(item.get("manifest-error"))?;
    Some(ProfileRow { profile, template, manifest_ok, isolation_level, manifest_error })
}

pub fn profiles_view(reply: Result<Reply, String>) -> (r: ProfilesView)
    ensures
        r@ == profiles_of(answer(reply)),
{
    let value = match reply_to_value(reply) {
        Ok(value) => value,
        Err(message) => return ProfilesView::Unavailable { message },
    };
    proof {
        lemma_view(value);
    }
    let items = match &value {
        Json::Array(items) => items,
        _ => {
            return ProfilesView::Unavailable {
                message: "демон вернул неожиданный ответ вместо списка профилей".to_owned(),
            };
        },
    };
    let ghost all = items_view(items@);
    let mut rows: Vec<ProfileRow> = Vec::new();
    for i in 0..items.len()
        invariant
            all == items_view(items@),
            answer(reply) == Ok::<JsonView, Seq<char>>(JsonView::Array(all)),
            rows@.len() == i,
            forall|j: int| 0 <= j < i ==> Some(rows@[j]@) == #[trigger] profile_row_of(all[j]),
    {
        assert(all[i as int] == items@[i as int]@);
        match profile_row(&items[i]) {
            Some(row) => rows.push(row),
            None => {
                return ProfilesView::Unavailable {
                    message: "демон прислал профиль без обязательного поля".to_owned(),
                };
            },
        }
    }
    assert(profile_views(rows@) =~= Seq::new(all.len(), |i: int| profile_row_of(all[i])->0));
    ProfilesView::Profiles(rows)
}

// ---------------------------------------------------------------------------------------------
// One space in detail
// ---------------------------------------------------------------------------------------------

/// The card under which a row of the description of a space stands.
#[derive(Debug, Clone, Copy, PartialEq, Eq, Structural)]
pub enum DetailSection {
    Space,
    Identity,
    Resources,
    Network,
}

/// A row of the description of a space. A machine value (a digest, a path, a number) is marked
/// `mono`: it is cut, not wrapped.
#[derive(Debug)]
pub struct SpaceDetailRow {
    pub key: String,
    pub value: String,
    pub section: DetailSection,
    pub mono: bool,
}

#[verifier::ext_equal]
pub struct SpaceDetailRowView {
    pub key: Seq<char>,
    pub value: Seq<char>,
    pub section: DetailSection,
    pub mono: bool,
}

impl View for SpaceDetailRow {
    type V = SpaceDetailRowView;

    open spec fn view(&self) -> SpaceDetailRowView {
        SpaceDetailRowView {
            key: self.key@,
            value: self.value@,
            section: self.section,
            mono: self.mono,
        }
    }
}

pub open spec fn detail_row_views(rows: Seq<SpaceDetailRow>) -> Seq<SpaceDetailRowView> {
    rows.map_values(|r: SpaceDetailRow| r@)
}

pub enum DetailView {
    Space { rows: Vec<SpaceDetailRow>, log_tail: Vec<String> },
    Unavailable { message: String },
}

impl View for DetailView {
    type V = Result<(Seq<SpaceDetailRowView>, Seq<Seq<char>>), Seq<char>>;

    open spec fn view(&self) -> Result<(Seq<SpaceDetailRowView>, Seq<Seq<char>>), Seq<char>> {
        match self {
            DetailView::Space { rows, log_tail } => Ok(
                (detail_row_views(rows@), texts(log_tail@)),
            ),
            DetailView::Unavailable { message } => Err(message@),
        }
    }
}

pub open spec fn num_text(v: Option<JsonView>) -> Seq<char> {
    match as_i64(v) {
        Some(n) => dec_int(n as int),
        None => "—"@,
    }
}

pub open spec fn mib_text(n: Option<u64>) -> Seq<char> {
    match n {
        Some(n) => dec(n as nat) + " МиБ"@,
        None => "—"@,
    }
}

pub open spec fn app_text(v: JsonView) -> Seq<char> {
    match (as_str(get2(v, "app"@, "mode"@)), as_str(get2(v, "app"@, "command"@))) {
        (Some(mode), Some(command)) => mode + " · "@ + command,
        (Some(mode), None) => mode,
        (None, Some(command)) => command,
        (None, None) => "—"@,
    }
}

/// A reduced level is never shown without its reason, or without the words that there is none.
pub open spec fn level_text(v: JsonView) -> Seq<char> {
    match as_str(get2(v, "isolation"@, "level"@)) {
        Some(level) => if level == "reduced"@ {
            match as_str(get2(v, "isolation"@, "reason"@)) {
                Some(reason) if trim(reason).len() > 0 => "reduced — "@ + reason,
                _ => "reduced — причина не указана в манифесте"@,
            }
        } else {
            level
        },
        None => "—"@,
    }
}

pub open spec fn memory_text(v: JsonView) -> Seq<char> {
    "заказано "@ + mib_text(as_u64(get2(v, "resources"@, "memory-mb"@))) + " · фактически "@
        + mib_text(
        match as_u64(get(v, "rss-kib"@)) {
            Some(kib) => Some((kib / 1024) as u64),
            None => None,
        },
    )
}

/// `a / b` rounded to the nearest integer, and to the even one of two that are equally near.
pub open spec fn half_even(a: nat, b: nat) -> nat {
    let q = a / b;
    let r = a % b;
    if 2 * r < b || (2 * r == b && q % 2 == 0) {
        q
    } else {
        q + 1
    }
}

/// The distance between neighbours of `n` among the numbers with fifty-three significant bits.
pub open spec fn precision_unit(n: nat) -> nat
    decreases n,
{
    if n < 0x20_0000_0000_0000 {
        1
    } else {
        2 * precision_unit(n / 2)
    }
}

/// Tenths of a mebibyte in a size of `bytes`, in double precision: the size is first brought to
/// fifty-three significant bits, and both roundings go to the even neighbour.
pub open spec fn mib_tenths(bytes: nat) -> nat {
    let unit = precision_unit(bytes);
    half_even(10 * (half_even(bytes, unit) * unit), 0x10_0000)
}

pub open spec fn size_text(bytes: nat) -> Seq<char> {
    dec(mib_tenths(bytes) / 10) + "."@ + dec(mib_tenths(bytes) % 10) + " МиБ"@
}

pub open spec fn volume_text(v: JsonView) -> Seq<char> {
    "заказано "@ + mib_text(as_u64(get2(v, "resources"@, "data-mb"@))) + " · файл "@ + (
    match as_u64(get(v, "data-qcow2-bytes"@)) {
        Some(bytes) => size_text(bytes as nat),
        None => "—"@,
    })
}

pub open spec fn disk_text(v: JsonView) -> Seq<char> {
    match as_i64(get2(v, "resources"@, "disk-gb"@)) {
        Some(gb) => dec_int(gb as int) + " ГиБ"@,
        None => "—"@,
    }
}

pub open spec fn uptime_text(v: JsonView) -> Seq<char> {
    match as_u64(get(v, "uptime-secs"@)) {
        Some(secs) => if secs >= 3600 {
            dec((secs / 3600) as nat) + " ч "@ + dec((secs % 3600 / 60) as nat) + " мин"@
        } else if secs >= 60 {
            dec((secs / 60) as nat) + " мин "@ + dec((secs % 60) as nat) + " с"@
        } else {
            dec(secs as nat) + " с"@
        },
        None => "—"@,
    }
}

pub open spec fn shutdown_text(v: JsonView) -> Seq<char> {
    match as_bool(get(v, "clean-shutdown"@)) {
        Some(clean) => yes_no(clean),
        None => "ещё не останавливали"@,
    }
}

pub open spec fn detail_row(
    key: Seq<char>,
    value: Seq<char>,
    section: DetailSection,
    mono: bool,
) -> SpaceDetailRowView {
    SpaceDetailRowView { key, value, section, mono }
}

/// The rows of the description, always the same ones in the same order.
pub open spec fn detail_rows(v: JsonView) -> Seq<SpaceDetailRowView> {
    seq![
        detail_row("Профиль"@, or_dash(as_str(get(v, "profile"@))), DetailSection::Space, false),
        detail_row(
            "Описание"@,
            or_dash(as_str(get(v, "description"@))),
            DetailSection::Space,
            false,
        ),
        detail_row("Состояние"@, or_dash(as_str(get(v, "state"@))), DetailSection::Space, false),
        detail_row("CID"@, num_text(get(v, "cid"@)), DetailSection::Identity, true),
        detail_row("uid"@, num_text(get(v, "uid"@)), DetailSection::Identity, true),
        detail_row("Создан"@, or_dash(as_str(get(v, "created"@))), DetailSection::Identity, false),
        detail_row("Приложение"@, app_text(v), DetailSection::Identity, false),
        detail_row("Шаблон"@, or_dash(as_str(get(v, "digest"@))), DetailSection::Identity, true),
        detail_row(
            "Манифест"@,
            or_dash(as_str(get(v, "manifest-path"@))),
            DetailSection::Identity,
            true,
        ),
        detail_row(
            "Сеть"@,
            or_dash(as_str(get2(v, "network"@, "via"@))),
            DetailSection::Network,
            false,
        ),
        detail_row("Уровень изоляции"@, level_text(v), DetailSection::Network, false),
        detail_row(
            "GPU"@,
            or_dash(as_str(get2(v, "isolation"@, "gpu"@))),
            DetailSection::Network,
            false,
        ),
        detail_row("Память"@, memory_text(v), DetailSection::Resources, false),
        detail_row("Том данных"@, volume_text(v), DetailSection::Resources, false),
        detail_row(
            "CPU"@,
            num_text(get2(v, "resources"@, "cpus"@)),
            DetailSection::Resources,
            false,
        ),
        detail_row("Диск"@, disk_text(v), DetailSection::Resources, false),
        detail_row(
            "Шифрование диска"@,
            yes_no(or_false(as_bool(get(v, "encrypted"@)))),
            DetailSection::Resources,
            false,
        ),
        detail_row("Время работы"@, uptime_text(v), DetailSection::Space, false),
        detail_row("Чистый останов"@, shutdown_text(v), DetailSection::Space, false),
    ]
}

/// The strings of a list, without what is no string.
pub open spec fn strings_among(items: Seq<JsonView>) -> Seq<Seq<char>>
    decreases items.len(),
{
    if items.len() == 0 {
        seq![]
    } else {
        match items.last() {
            JsonView::Str(s) => strings_among(items.drop_last()).push(s),
            _ => strings_among(items.drop_last()),
        }
    }
}

pub open spec fn log_lines(v: JsonView) -> Seq<Seq<char>> {
    match as_array(get(v, "log-tail"@)) {
        Some(items) => strings_among(items),
        None => seq![],
    }
}

pub open spec fn detail_of(reply: Result<JsonView, Seq<char>>) -> Result<
    (Seq<SpaceDetailRowView>, Seq<Seq<char>>),
    Seq<char>,
> {
    match reply {
        Err(message) => Err(message),
        Ok(v) => if v is Object {
            Ok((detail_rows(v), log_lines(v)))
        } else {
            Err("демон вернул неожиданный ответ вместо описания спейса"@)
        },
    }
}

fn num_or_dash(v: Option<&Json>) -> (r: String)
    ensures
        r@ == num_text(opt_view(v)),
{
    match i64_of(v) {
        Some(n) => i64_to_string(n),
        None => "—".to_owned(),
    }
}

fn mib_or_dash(n: Option<u64>) -> (r: String)
    ensures
        r@ == mib_text(n),
{
    match n {
        Some(n) => u64_to_string(n).concat(" МиБ"),
        None => "—".to_owned(),
    }
}

fn app_summary(value: &Json) -> (r: String)
    ensures
        r@ == app_text(value@),
{
    let mode = str_of(value.get2("app", "mode"));
    let command = str_of(value.get2("app", "command"));
    match (mode, command) {
        (Some(mode), Some(command)) => mode.concat(" · ").concat(command.as_str()),
        (Some(mode), None) => mode,
        (None, Some(command)) => command,
        (None, None) => "—".to_owned(),
    }
}

fn isolation_level_summary(value: &Json) -> (r: String)
    ensures
        r@ == level_text(value@),
{
    match str_of(value.get2("isolation", "level")) {
        Some(level) => if str_equal(level.as_str(), "reduced") {
            match str_of(value.get2("isolation", "reason")) {
                Some(reason) => if str_trim(reason.as_str()).as_str().is_empty() {
                    "reduced — причина не указана в манифесте".to_owned()
                } else {
                    "reduced — ".to_owned().concat(reason.as_str())
                },
                None => "reduced — причина не указана в манифесте".to_owned(),
            }
        } else {
            level
        },
        None => "—".to_owned(),
    }
}

fn memory_summary(value: &Json) -> (r: String)
    ensures
        r@ == memory_text(value@),
{
    let requested = mib_or_dash(u64_of(value.get2("resources", "memory-mb")));
    let actual = mib_or_dash(
        match u64_of(value.get("rss-kib")) {
            Some(kib) => Some(kib / 1024),
            None => None,
        },
    );
    "заказано ".to_owned().concat(requested.as_str()).concat(" · фактически ").concat(
        actual.as_str(),
    )
}

proof fn lemma_precision_unit(n: nat)
    ensures
        1 <= precision_unit(n),
        n < 0x20_0000_0000_0000 ==> precision_unit(n) == 1,
        n >= 0x10_0000_0000_0000 ==> precision_unit(n) <= n / 0x10_0000_0000_0000,
    decreases n,
{
    if n >= 0x20_0000_0000_0000 {
        lemma_precision_unit(n / 2);
    }
}

fn unit_of(n: u64) -> (r: u64)
    ensures
        r == precision_unit(n as nat),
        1 <= r <= 4096,
    decreases n,
{
    proof {
        lemma_precision_unit(n as nat);
    }
    if n < 0x20_0000_0000_0000 {
        1
    } else {
        proof {
            lemma_precision_unit((n / 2) as nat);
        }
        2 * unit_of(n / 2)
    }
}

fn divide_half_even(a: u128, b: u128) -> (r: u128)
    requires
        0 < b < 0x1_0000_0000,
        a < 0x1_0000_0000_0000_0000_0000,
    ensures
        r == half_even(a as nat, b as nat),
        r <= a + 1,
{
    let q: u128 = a / b;
    let rest: u128 = a % b;
    assert(q <= a) by (nonlinear_arith)
        requires
            q == a / b,
            b > 0,
    ;
    if 2 * rest < b || (2 * rest == b && q % 2 == 0) {
        q
    } else {
        q + 1
    }
}

fn size_to_string(bytes: u64) -> (r: String)
    ensures
        r@ == size_text(bytes as nat),
{
    let unit: u64 = unit_of(bytes);
    let steps: u128 = divide_half_even(bytes as u128, unit as u128);
    assert(steps * unit <= 0x1_0000_0000_0000_0000 + 0x2000) by (nonlinear_arith)
        requires
            steps == half_even(bytes as nat, unit as nat),
            bytes <= 0xffff_ffff_ffff_ffff,
            1 <= unit <= 4096,
    ;
    let near: u128 = steps * unit as u128;
    let tenths: u128 = divide_half_even(10 * near, 0x10_0000);
    assert(tenths == mib_tenths(bytes as nat));
    assert(tenths < 0x1_0000_0000_0000);
    let tenths: u64 = tenths as u64;
    u64_to_string(tenths / 10).concat(".").concat(u64_to_string(tenths % 10).as_str()).concat(
        " МиБ",
    )
}

fn data_volume_summary(value: &Json) -> (r: String)
    ensures
        r@ == volume_text(value@),
{
    let requested = mib_or_dash(u64_of(value.get2("resources", "data-mb")));
    let actual = match u64_of(value.get("data-qcow2-bytes")) {
        Some(bytes) => size_to_string(bytes),
        None => "—".to_owned(),
    };
    "заказано ".to_owned().concat(requested.as_str()).concat(" · файл ").concat(actual.as_str())
}

fn disk_summary(value: &Json) -> (r: String)
    ensures
        r@ == disk_text(value@),
{
    match i64_of(value.get2("resources", "disk-gb")) {
        Some(gb) => i64_to_string(gb).concat(" ГиБ"),
        None => "—".to_owned(),
    }
}

fn uptime_summary(value: &Json) -> (r: String)
    ensures
        r@ == uptime_text(value@),
{
    let secs: u64 = match u64_of(value.get("uptime-secs")) {
        Some(secs) => secs,
        None => return "—".to_owned(),
    };
    let hours: u64 = secs / 3600;
    let minutes: u64 = (secs % 3600) / 60;
    let seconds: u64 = secs % 60;
    if hours > 0 {
        u64_to_string(hours).concat(" ч ").concat(u64_to_string(minutes).as_str()).concat(" мин")
    } else if minutes > 0 {
        u64_to_string(minutes).concat(" мин ").concat(u64_to_string(seconds).as_str()).concat(" с")
    } else {
        u64_to_string(seconds).concat(" с")
    }
}

fn clean_shutdown_summary(value: &Json) -> (r: String)
    ensures
        r@ == shutdown_text(value@),
{
    match bool_of(value.get("clean-shutdown")) {
        Some(clean) => yes_or_no(clean),
        None => "ещё не останавливали".to_owned(),
    }
}

fn push_detail(
    rows: &mut Vec<SpaceDetailRow>,
    key: &str,
    value: String,
    section: DetailSection,
    mono: bool,
)
    ensures
        detail_row_views(final(rows)@) == detail_row_views(old(rows)@).push(
            detail_row(key@, value@, section, mono),
        ),
{
    rows.push(SpaceDetailRow { key: key.to_owned(), value, section, mono });
    assert(detail_row_views(rows@) =~= detail_row_views(old(rows)@).push(
        detail_row(key@, value@, section, mono),
    ));
}

fn log_tail(value: &Json) -> (r: Vec<String>)
    ensures
        texts(r@) == log_lines(value@),
{
    let mut out: Vec<String> = Vec::new();
    match array_of(value.get("log-tail")) {
        Some(items) => {
            let ghost all = items_view(items@);
            assert(all.take(0) =~= seq![]);
            assert(texts(out@) =~= seq![]);
            for i in 0..items.len()
                invariant
                    all == items_view(items@),
                    texts(out@) == strings_among(all.take(i as int)),
            {
                assert(all.take(i + 1).drop_last() =~= all.take(i as int));
                assert(all.take(i + 1).last() == items@[i as int]@);
                match &items[i] {
                    Json::Str(s) => {
                        crate::text::push_text(&mut out, s.as_str());
                    },
                    _ => {},
                }
            }
            assert(all.take(items@.len() as int) =~= all);
        },
        None => {
            assert(texts(out@) =~= seq![]);
        },
    }
    out
}

#[verifier::rlimit(60)]
pub fn detail_view(reply: Result<Reply, String>) -> (r: DetailView)
    ensures
        r@ == detail_of(answer(reply)),
{
    let value = match reply_to_value(reply) {
        Ok(value) => value,
        Err(message) => return DetailView::Unavailable { message },
    };
    if !value.is_object() {
        return DetailView::Unavailable {
            message: "демон вернул неожиданный ответ вместо описания спейса".to_owned(),
        };
    }
    let mut rows: Vec<SpaceDetailRow> = Vec::new();
    assert(detail_row_views(rows@) =~= seq![]);
    let v = &value;
    push_detail(&mut rows, "Профиль", str_or(v.get("profile"), "—"), DetailSection::Space, false);
    push_detail(
        &mut rows,
        "Описание",
        str_or(v.get("description"), "—"),
        DetailSection::Space,
        false,
    );
    push_detail(&mut rows, "Состояние", str_or(v.get("state"), "—"), DetailSection::Space, false);
    push_detail(&mut rows, "CID", num_or_dash(v.get("cid")), DetailSection::Identity, true);
    push_detail(&mut rows, "uid", num_or_dash(v.get("uid")), DetailSection::Identity, true);
    push_detail(&mut rows, "Создан", str_or(v.get("created"), "—"), DetailSection::Identity, false);
    push_detail(&mut rows, "Приложение", app_summary(v), DetailSection::Identity, false);
    push_detail(&mut rows, "Шаблон", str_or(v.get("digest"), "—"), DetailSection::Identity, true);
    push_detail(
        &mut rows,
        "Манифест",
        str_or(v.get("manifest-path"), "—"),
        DetailSection::Identity,
        true,
    );
    push_detail(
        &mut rows,
        "Сеть",
        str_or(v.get2("network", "via"), "—"),
        DetailSection::Network,
        false,
    );
    push_detail(
        &mut rows,
        "Уровень изоляции",
        isolation_level_summary(v),
        DetailSection::Network,
        false,
    );
    push_detail(
        &mut rows,
        "GPU",
        str_or(v.get2("isolation", "gpu"), "—"),
        DetailSection::Network,
        false,
    );
    push_detail(&mut rows, "Память", memory_summary(v), DetailSection::Resources, false);
    push_detail(&mut rows, "Том данных", data_volume_summary(v), DetailSection::Resources, false);
    push_detail(
        &mut rows,
        "CPU",
        num_or_dash(v.get2("resources", "cpus")),
        DetailSection::Resources,
        false,
    );
    push_detail(&mut rows, "Диск", disk_summary(v), DetailSection::Resources, false);
    push_detail(
        &mut rows,
        "Шифрование диска",
        yes_or_no(is_true(bool_of(v.get("encrypted")))),
        DetailSection::Resources,
        false,
    );
    push_detail(&mut rows, "Время работы", uptime_summary(v), DetailSection::Space, false);
    push_detail(&mut rows, "Чистый останов", clean_shutdown_summary(v), DetailSection::Space, false);
    let log_tail = log_tail(v);
    assert(detail_row_views(rows@) =~= detail_rows(value@));
    DetailView::Space { rows, log_tail }
}

// ---------------------------------------------------------------------------------------------
// The network
// ---------------------------------------------------------------------------------------------

#[derive(Debug, Clone, PartialEq, Eq)]
pub struct DetailRow {
    pub key: String,
    pub value: String,
}

pub open spec fn pair_views(rows: Seq<DetailRow>) -> Seq<(Seq<char>, Seq<char>)> {
    rows.map_values(|r: DetailRow| (r.key@, r.value@))
}

/// The state of the network. The note, where it is not empty, is what the operator has to see
/// beside the rules.
#[derive(Debug, Clone, PartialEq, Eq)]
pub struct NetView {
    pub rows: Vec<DetailRow>,
    pub ruleset_text: String,
    pub ruleset_note: String,
}

#[verifier::ext_equal]
pub struct NetFacts {
    pub rows: Seq<(Seq<char>, Seq<char>)>,
    pub ruleset_text: Seq<char>,
    pub ruleset_note: Seq<char>,
}

impl View for NetView {
    type V = NetFacts;

    open spec fn view(&self) -> NetFacts {
        NetFacts {
            rows: pair_views(self.rows@),
            ruleset_text: self.ruleset_text@,
            ruleset_note: self.ruleset_note@,
        }
    }
}

pub open spec fn flag2(v: JsonView, outer: Seq<char>, inner: Seq<char>) -> bool {
    or_false(as_bool(get2(v, outer, inner)))
}

pub open spec fn tap_row(tap: JsonView) -> (Seq<char>, Seq<char>) {
    (
        "Tap "@ + or_dash(as_str(get(tap, "name"@))),
        if or_false(as_bool(get(tap, "isolated"@))) {
            "изолирован"@
        } else {
            "не изолирован"@
        },
    )
}

pub open spec fn tap_rows(v: JsonView) -> Seq<(Seq<char>, Seq<char>)> {
    match as_array(get(v, "taps"@)) {
        Some(taps) => taps.map_values(|t: JsonView| tap_row(t)),
        None => seq![],
    }
}

pub open spec fn uplink_text(v: JsonView) -> Seq<char> {
    or_dash(as_str(get2(v, "uplink-pci"@, "address"@))) + " · "@ + (if flag2(
        v,
        "uplink-pci"@,
        "present"@,
    ) {
        "подключен"@
    } else {
        "не подключен"@
    }) + " · драйвер "@ + or_dash(as_str(get2(v, "uplink-pci"@, "driver"@)))
}

pub open spec fn tunnel_text(v: JsonView) -> Seq<char> {
    match get2(v, "miyori-net"@, "tunnel"@) {
        None => "—"@,
        Some(JsonView::Null) => "—"@,
        Some(t) => "ifc="@ + or_dash(as_str(get(t, "ifc"@))) + " set="@ + yes_no(
            or_false(as_bool(get(t, "set"@))),
        ) + " route="@ + yes_no(or_false(as_bool(get(t, "route"@)))),
    }
}

pub open spec fn net_rows(v: JsonView) -> Seq<(Seq<char>, Seq<char>)> {
    seq![
        ("Мост br-spaces"@, yes_no(flag2(v, "bridges"@, "br-spaces"@))),
        ("Мост br-captive"@, yes_no(flag2(v, "bridges"@, "br-captive"@))),
    ] + tap_rows(v) + seq![
        ("Аплинк PCI"@, uplink_text(v)),
        (
            "miyori-net"@,
            if flag2(v, "miyori-net"@, "running"@) {
                "поднят"@
            } else {
                "не поднят"@
            },
        ),
        ("miyori-net PID"@, num_text(get2(v, "miyori-net"@, "pid"@))),
        ("miyori-net аплинк"@, or_dash(as_str(get2(v, "miyori-net"@, "uplink"@)))),
        ("miyori-net туннель"@, tunnel_text(v)),
        ("Счётчики kill-switch"@, or_dash(as_str(get(v, "killswitch_counters"@)))),
    ]
}

pub open spec fn rules_text(v: JsonView) -> Seq<char> {
    match as_str(get2(v, "ruleset"@, "text"@)) {
        Some(s) => s,
        None => seq![],
    }
}

/// Rules that could not be read, and rules of which a part is shown, are never shown without
/// saying so.
pub open spec fn rules_note(v: JsonView) -> Seq<char> {
    if !flag2(v, "ruleset"@, "available"@) {
        "ruleset недоступен для чтения"@
    } else {
        match as_u64(get2(v, "ruleset"@, "truncated-from"@)) {
            Some(total) => "показано "@ + dec(rules_text(v).len()) + " из "@ + dec(total as nat)
                + " символов — ruleset обрезан"@,
            None => seq![],
        }
    }
}

pub open spec fn net_of(reply: Result<JsonView, Seq<char>>) -> Result<NetFacts, Seq<char>> {
    match reply {
        Err(message) => Err(message),
        Ok(v) => if v is Object {
            Ok(
                NetFacts {
                    rows: net_rows(v),
                    ruleset_text: rules_text(v),
                    ruleset_note: rules_note(v),
                },
            )
        } else {
            Err("демон вернул неожиданный ответ вместо статуса сети"@)
        },
    }
}

fn push_row(rows: &mut Vec<DetailRow>, key: &str, value: String)
    ensures
        pair_views(final(rows)@) == pair_views(old(rows)@).push((key@, value@)),
{
    rows.push(DetailRow { key: key.to_owned(), value });
    assert(pair_views(rows@) =~= pair_views(old(rows)@).push((key@, value@)));
}

fn flag_of(value: &Json, outer: &str, inner: &str) -> (r: bool)
    ensures
        r == flag2(value@, outer@, inner@),
{
    is_true(bool_of(value.get2(outer, inner)))
}

fn push_taps(rows: &mut Vec<DetailRow>, value: &Json)
    ensures
        pair_views(final(rows)@) == pair_views(old(rows)@) + tap_rows(value@),
{
    let ghost before = pair_views(rows@);
    match array_of(value.get("taps")) {
        Some(taps) => {
            let ghost all = tap_rows(value@);
            assert(before + all.take(0) =~= before);
            for i in 0..taps.len()
                invariant
                    all == items_view(taps@).map_values(|t: JsonView| tap_row(t)),
                    pair_views(rows@) == before + all.take(i as int),
            {
                let tap = &taps[i];
                let key = "Tap ".to_owned().concat(str_or(tap.get("name"), "—").as_str());
                let value = if is_true(bool_of(tap.get("isolated"))) {
                    "изолирован".to_owned()
                } else {
                    "не изолирован".to_owned()
                };
                push_row(rows, key.as_str(), value);
                assert(all[i as int] == tap_row(taps@[i as int]@));
                assert(pair_views(rows@) =~= before + all.take(i + 1));
            }
            assert(all.take(taps@.len() as int) =~= all);
        },
        None => {
            assert(before + tap_rows(value@) =~= before);
        },
    }
}

fn uplink_summary(value: &Json) -> (r: String)
    ensures
        r@ == uplink_text(value@),
{
    let address = str_or(value.get2("uplink-pci", "address"), "—");
    let driver = str_or(value.get2("uplink-pci", "driver"), "—");
    let present = if flag_of(value, "uplink-pci", "present") {
        "подключен"
    } else {
        "не подключен"
    };
    address.concat(" · ").concat(present).concat(" · драйвер ").concat(driver.as_str())
}

fn tunnel_summary(value: &Json) -> (r: String)
    ensures
        r@ == tunnel_text(value@),
{
    match value.get2("miyori-net", "tunnel") {
        None => "—".to_owned(),
        Some(t) => if t.is_null() {
            "—".to_owned()
        } else {
            let ifc = str_or(t.get("ifc"), "—");
            let set = yes_or_no(is_true(bool_of(t.get("set"))));
            let route = yes_or_no(is_true(bool_of(t.get("route"))));
            "ifc=".to_owned().concat(ifc.as_str()).concat(" set=").concat(set.as_str()).concat(
                " route=",
            ).concat(route.as_str())
        },
    }
}

fn ruleset_note(value: &Json, text: &str) -> (r: String)
    requires
        text@ == rules_text(value@),
    ensures
        r@ == rules_note(value@),
{
    if !flag_of(value, "ruleset", "available") {
        return "ruleset недоступен для чтения".to_owned();
    }
    match u64_of(value.get2("ruleset", "truncated-from")) {
        Some(total) => {
            let shown = chars_of(text).len();
            "показано ".to_owned().concat(u64_to_string(shown as u64).as_str()).concat(
                " из ",
            ).concat(u64_to_string(total).as_str()).concat(" символов — ruleset обрезан")
        },
        None => String::new(),
    }
}

pub fn net_view(reply: Result<Reply, String>) -> (r: Result<NetView, String>)
    ensures
        match (r, net_of(answer(reply))) {
            (Ok(view), Ok(facts)) => view@ == facts,
            (Err(message), Err(words)) => message@ == words,
            _ => false,
        },
{
    let value = reply_to_value(reply)?;
    if !value.is_object() {
        return Err("демон вернул неожиданный ответ вместо статуса сети".to_owned());
    }
    let v = &value;
    let mut rows: Vec<DetailRow> = Vec::new();
    assert(pair_views(rows@) =~= seq![]);
    push_row(&mut rows, "Мост br-spaces", yes_or_no(flag_of(v, "bridges", "br-spaces")));
    push_row(&mut rows, "Мост br-captive", yes_or_no(flag_of(v, "bridges", "br-captive")));
    push_taps(&mut rows, v);
    push_row(&mut rows, "Аплинк PCI", uplink_summary(v));
    let state = if flag_of(v, "miyori-net", "running") {
        "поднят"
    } else {
        "не поднят"
    };
    push_row(&mut rows, "miyori-net", state.to_owned());
    push_row(&mut rows, "miyori-net PID", num_or_dash(v.get2("miyori-net", "pid")));
    push_row(&mut rows, "miyori-net аплинк", str_or(v.get2("miyori-net", "uplink"), "—"));
    push_row(&mut rows, "miyori-net туннель", tunnel_summary(v));
    push_row(&mut rows, "Счётчики kill-switch", str_or(v.get("killswitch_counters"), "—"));
    assert(pair_views(rows@) =~= net_rows(value@));
    let ruleset_text = str_or(v.get2("ruleset", "text"), "");
    proof {
        reveal_strlit("");
        assert(""@ =~= Seq::<char>::empty());
    }
    let ruleset_note = ruleset_note(v, ruleset_text.as_str());
    Ok(NetView { rows, ruleset_text, ruleset_note })
}

} // verus!
