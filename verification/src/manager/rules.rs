//! The rules of the manager's window: what is offered, what is accepted, and in which words.
use crate::ids::{is_color, is_rrggbb, is_slug, slug_ok};
use crate::manager::view::{
    or_dash, profile_views, row_views, ProfileRow, ProfileRowView, SpaceRow, SpaceRowView,
};
use crate::text::{
    char_hex_value, chars_of, chars_trim, hex_value, opt_text, str_equal, string_of,
    strings_contain, texts, trim, u64_to_dec2, u64_to_string, dec, dec2,
};
use vstd::prelude::*;

verus! {

pub const PRESET_LABELS: [&'static str; 5] = ["untrusted", "work", "personal", "banking", "testing"];

/// Hues that can be told apart at a glance.
pub const PRESET_COLORS: [&'static str; 8] = [
    "#e03131",
    "#f08c00",
    "#2f9e44",
    "#0ca678",
    "#1971c2",
    "#4263eb",
    "#9c36b5",
    "#e64980",
];

// ---------------------------------------------------------------------------------------------
// Colours
// ---------------------------------------------------------------------------------------------

/// The byte that two hexadecimal digits stand for.
pub open spec fn hex_pair(high: char, low: char) -> int {
    16 * hex_value(high) + hex_value(low)
}

/// The red, green and blue of a colour.
pub open spec fn channels(color: Seq<char>) -> Option<(u8, u8, u8)> {
    if is_color(color) {
        Some(
            (
                hex_pair(color[1], color[2]) as u8,
                hex_pair(color[3], color[4]) as u8,
                hex_pair(color[5], color[6]) as u8,
            ),
        )
    } else {
        None
    }
}

fn channel(high: char, low: char) -> (r: Option<u8>)
    ensures
        r is Some <==> crate::text::is_hex_digit(high) && crate::text::is_hex_digit(low),
        r matches Some(v) ==> v == hex_pair(high, low),
{
    match (char_hex_value(high), char_hex_value(low)) {
        (Some(h), Some(l)) => Some(16 * h + l),
        _ => None,
    }
}

/// The red, green and blue of a colour; nothing where the text is none, and is shown as grey.
pub fn parse_hex_color(color: &str) -> (r: Option<(u8, u8, u8)>)
    ensures
        r == channels(color@),
{
    let chars = chars_of(color);
    if chars.len() != 7 || chars[0] != '#' {
        return None;
    }
    match (
        channel(chars[1], chars[2]),
        channel(chars[3], chars[4]),
        channel(chars[5], chars[6]),
    ) {
        (Some(r), Some(g), Some(b)) => Some((r, g, b)),
        _ => None,
    }
}

// ---------------------------------------------------------------------------------------------
// Words for a space
// ---------------------------------------------------------------------------------------------

pub open spec fn row_text(row: SpaceRowView) -> Seq<char> {
    row.id + " · "@ + row.state + " · "@ + row.profile + " ("@ + row.level + ")"@
}

/// A space in one line. The reason of its level is too long for that.
pub fn space_row_text(row: &SpaceRow) -> (r: String)
    ensures
        r@ == row_text(row@),
{
    row.id.clone().concat(" · ").concat(row.state.as_str()).concat(" · ").concat(
        row.profile.as_str(),
    ).concat(" (").concat(row.level.as_str()).concat(")")
}

pub open spec fn tooltip(row: SpaceRowView) -> Seq<char> {
    row_text(row) + "\nМетка: "@ + row.label + "\n"@ + row.level_reason
}

pub fn space_row_tooltip(row: &SpaceRow) -> (r: String)
    ensures
        r@ == tooltip(row@),
{
    space_row_text(row).concat("\nМетка: ").concat(row.label.as_str()).concat("\n").concat(
        row.level_reason.as_str(),
    )
}

pub open spec fn css_class(state: Seq<char>) -> Seq<char> {
    if state == "running"@ {
        "state-running"@
    } else if state == "unresponsive"@ {
        "state-unresponsive"@
    } else if state == "stopped"@ {
        "state-stopped"@
    } else {
        "state-unknown"@
    }
}

/// The style of a state.
pub fn state_css_class(state: &str) -> (r: &'static str)
    ensures
        r@ == css_class(state@),
{
    if str_equal(state, "running") {
        "state-running"
    } else if str_equal(state, "unresponsive") {
        "state-unresponsive"
    } else if str_equal(state, "stopped") {
        "state-stopped"
    } else {
        "state-unknown"
    }
}

pub open spec fn state_words(state: Seq<char>) -> Seq<char> {
    if state == "running"@ {
        "Работает"@
    } else if state == "stopped"@ {
        "Остановлен"@
    } else if state == "unresponsive"@ {
        "Не отвечает"@
    } else {
        state
    }
}

/// A state in words; one that is not known is shown as it came.
pub fn state_text(state: &str) -> (r: String)
    ensures
        r@ == state_words(state@),
{
    if str_equal(state, "running") {
        "Работает".to_owned()
    } else if str_equal(state, "stopped") {
        "Остановлен".to_owned()
    } else if str_equal(state, "unresponsive") {
        "Не отвечает".to_owned()
    } else {
        state.to_owned()
    }
}

pub open spec fn icon_of(profile: Seq<char>) -> Seq<char> {
    if profile == "tg"@ || profile == "telegram"@ {
        "mail-send-symbolic"@
    } else if profile == "web"@ || profile == "browser"@ {
        "web-browser-symbolic"@
    } else if profile == "dev"@ || profile == "kali"@ {
        "utilities-terminal-symbolic"@
    } else {
        "application-x-executable-symbolic"@
    }
}

pub fn space_icon(profile: &str) -> (r: &'static str)
    ensures
        r@ == icon_of(profile@),
{
    if str_equal(profile, "tg") || str_equal(profile, "telegram") {
        "mail-send-symbolic"
    } else if str_equal(profile, "web") || str_equal(profile, "browser") {
        "web-browser-symbolic"
    } else if str_equal(profile, "dev") || str_equal(profile, "kali") {
        "utilities-terminal-symbolic"
    } else {
        "application-x-executable-symbolic"
    }
}

/// The time that an operation has taken so far.
pub fn clock_text(secs: u64) -> (r: String)
    ensures
        r@ == dec((secs / 60) as nat) + ":"@ + dec2((secs % 60) as nat),
{
    u64_to_string(secs / 60).concat(":").concat(u64_to_dec2(secs % 60).as_str())
}

// ---------------------------------------------------------------------------------------------
// Actions
// ---------------------------------------------------------------------------------------------

#[derive(Debug, Clone, Copy, PartialEq, Eq, Structural)]
pub enum Action {
    Start,
    Stop,
    OpenWindow,
    Build,
    ResetSystem,
    ResetAll,
    UpdateImage,
    Destroy,
}

/// Whether the daemon can grant an action to a space in a state: a button that is bound to be
/// refused is not offered. An image is built for a profile, and needs no space.
pub open spec fn offered(action: Action, state: Option<Seq<char>>) -> bool {
    match action {
        Action::Build => true,
        Action::Stop => state == Some("running"@) || state == Some("unresponsive"@),
        Action::OpenWindow => state == Some("running"@),
        _ => state == Some("stopped"@),
    }
}

pub open spec fn opt_str_view(s: Option<&str>) -> Option<Seq<char>> {
    match s {
        Some(s) => Some(s@),
        None => None,
    }
}

fn state_is(state: Option<&str>, name: &str) -> (r: bool)
    ensures
        r == (opt_str_view(state) == Some(name@)),
{
    match state {
        Some(s) => str_equal(s, name),
        None => false,
    }
}

pub fn action_enabled(action: Action, state: Option<&str>) -> (r: bool)
    ensures
        r == offered(action, opt_str_view(state)),
{
    match action {
        Action::Build => true,
        Action::Stop => state_is(state, "running") || state_is(state, "unresponsive"),
        Action::OpenWindow => state_is(state, "running"),
        Action::Start => state_is(state, "stopped"),
        Action::ResetSystem => state_is(state, "stopped"),
        Action::ResetAll => state_is(state, "stopped"),
        Action::UpdateImage => state_is(state, "stopped"),
        Action::Destroy => state_is(state, "stopped"),
    }
}

/// The operations that open or make anew the encrypted volumes of a space.
pub open spec fn opens_volumes(op: Seq<char>) -> bool {
    op == "start"@ || op == "reset-system"@ || op == "reset-all"@ || op == "update-image"@
}

pub open spec fn passphrase_needed(op: Seq<char>, spaces: Seq<SpaceRowView>, id: Seq<char>) -> bool {
    opens_volumes(op) && exists|i: int|
        0 <= i < spaces.len() && (#[trigger] spaces[i]).id == id && spaces[i].encrypted
}

pub fn needs_passphrase(op: &str, spaces: &Vec<SpaceRow>, id: &str) -> (r: bool)
    ensures
        r == passphrase_needed(op@, row_views(spaces@), id@),
{
    if !(str_equal(op, "start") || str_equal(op, "reset-system") || str_equal(op, "reset-all")
        || str_equal(op, "update-image")) {
        return false;
    }
    let ghost all = row_views(spaces@);
    for i in 0..spaces.len()
        invariant
            all == row_views(spaces@),
            opens_volumes(op@),
            forall|j: int| 0 <= j < i ==> !((#[trigger] all[j]).id == id@ && all[j].encrypted),
    {
        assert(all[i as int] == spaces@[i as int]@);
        if spaces[i].encrypted && str_equal(spaces[i].id.as_str(), id) {
            return true;
        }
    }
    false
}

// ---------------------------------------------------------------------------------------------
// The fields of the form
// ---------------------------------------------------------------------------------------------

pub open spec fn slug_problem(candidate: Seq<char>) -> Option<Seq<char>> {
    if candidate.len() == 0 {
        Some("не может быть пустым"@)
    } else if !is_slug(candidate) {
        Some("только строчные латинские буквы, цифры и дефис, не длиннее 32"@)
    } else {
        None
    }
}

pub fn slug_error(candidate: &str) -> (r: Option<String>)
    ensures
        opt_text(r) == slug_problem(candidate@),
{
    if chars_of(candidate).len() == 0 {
        return Some("не может быть пустым".to_owned());
    }
    if !slug_ok(candidate) {
        return Some("только строчные латинские буквы, цифры и дефис, не длиннее 32".to_owned());
    }
    None
}

/// What is wrong with the id of a new space: its shape is looked at first.
pub open spec fn id_problem(candidate: Seq<char>, existing: Seq<Seq<char>>) -> Option<Seq<char>> {
    match slug_problem(candidate) {
        Some(e) => Some(e),
        None => if existing.contains(candidate) {
            Some("спейс «"@ + candidate + "» уже существует"@)
        } else {
            None
        },
    }
}

pub fn id_error(candidate: &str, existing_ids: &Vec<String>) -> (r: Option<String>)
    ensures
        opt_text(r) == id_problem(candidate@, texts(existing_ids@)),
{
    let problem = slug_error(candidate);
    if problem.is_some() {
        return problem;
    }
    if strings_contain(existing_ids, candidate) {
        return Some("спейс «".to_owned().concat(candidate).concat("» уже существует"));
    }
    None
}

pub open spec fn color_problem(candidate: Seq<char>) -> Option<Seq<char>> {
    if is_color(candidate) {
        None
    } else {
        Some("цвет должен быть в формате #rrggbb"@)
    }
}

pub fn color_error(candidate: &str) -> (r: Option<String>)
    ensures
        opt_text(r) == color_problem(candidate@),
{
    if is_rrggbb(candidate) {
        None
    } else {
        Some("цвет должен быть в формате #rrggbb".to_owned())
    }
}

pub open spec fn passphrase_problem(passphrase: Seq<char>, confirm: Seq<char>) -> Option<Seq<char>> {
    if passphrase == confirm {
        None
    } else {
        Some("пароль и подтверждение не совпадают"@)
    }
}

/// Two empty fields leave a space unencrypted; otherwise the two have to agree.
pub fn passphrase_error(passphrase: &str, confirm: &str) -> (r: Option<String>)
    ensures
        opt_text(r) == passphrase_problem(passphrase@, confirm@),
{
    if str_equal(passphrase, confirm) {
        None
    } else {
        Some("пароль и подтверждение не совпадают".to_owned())
    }
}

// ---------------------------------------------------------------------------------------------
// Profiles
// ---------------------------------------------------------------------------------------------

pub enum ProfileEligibility {
    Ready,
    NoTemplate,
    ManifestBroken(String),
}

pub enum EligibilityView {
    Ready,
    NoTemplate,
    ManifestBroken(Seq<char>),
}

impl View for ProfileEligibility {
    type V = EligibilityView;

    open spec fn view(&self) -> EligibilityView {
        match *self {
            ProfileEligibility::Ready => EligibilityView::Ready,
            ProfileEligibility::NoTemplate => EligibilityView::NoTemplate,
            ProfileEligibility::ManifestBroken(e) => EligibilityView::ManifestBroken(e@),
        }
    }
}

pub open spec fn or_empty(s: Option<Seq<char>>) -> Seq<char> {
    match s {
        Some(s) => s,
        None => ""@,
    }
}

/// Whether a space can be created from a profile. A manifest that cannot be read comes first: no
/// image can be built from it either.
pub open spec fn eligibility(row: ProfileRowView) -> EligibilityView {
    if !row.manifest_ok {
        EligibilityView::ManifestBroken(or_empty(row.manifest_error))
    } else if !row.template {
        EligibilityView::NoTemplate
    } else {
        EligibilityView::Ready
    }
}

pub fn profile_eligibility(row: &ProfileRow) -> (r: ProfileEligibility)
    ensures
        r@ == eligibility(row@),
{
    if !row.manifest_ok {
        return ProfileEligibility::ManifestBroken(
            match &row.manifest_error {
                Some(e) => e.clone(),
                None => "".to_owned(),
            },
        );
    }
    if !row.template {
        return ProfileEligibility::NoTemplate;
    }
    ProfileEligibility::Ready
}

fn level_or_dash(row: &ProfileRow) -> (r: String)
    ensures
        r@ == or_dash(row@.isolation_level),
{
    match &row.isolation_level {
        Some(level) => level.clone(),
        None => "—".to_owned(),
    }
}

pub open spec fn option_text(row: ProfileRowView) -> Seq<char> {
    match eligibility(row) {
        EligibilityView::Ready => row.profile + " ("@ + or_dash(row.isolation_level) + ")"@,
        EligibilityView::NoTemplate => row.profile + " ("@ + or_dash(row.isolation_level)
            + ") — образ не собран"@,
        EligibilityView::ManifestBroken(_) => row.profile + " — манифест не читается"@,
    }
}

/// A profile in the list of the form.
pub fn profile_option_text(row: &ProfileRow) -> (r: String)
    ensures
        r@ == option_text(row@),
{
    match profile_eligibility(row) {
        ProfileEligibility::Ready => row.profile.clone().concat(" (").concat(
            level_or_dash(row).as_str(),
        ).concat(")"),
        ProfileEligibility::NoTemplate => row.profile.clone().concat(" (").concat(
            level_or_dash(row).as_str(),
        ).concat(") — образ не собран"),
        ProfileEligibility::ManifestBroken(_) => row.profile.clone().concat(
            " — манифест не читается",
        ),
    }
}

pub open spec fn profile_words(row: ProfileRowView) -> Seq<char> {
    match eligibility(row) {
        EligibilityView::Ready => "Образ готов · уровень "@ + or_dash(row.isolation_level)
            + "\nНовая сборка не меняет уже созданные спейсы."@,
        EligibilityView::NoTemplate => "Образ ещё не собран · уровень "@ + or_dash(
            row.isolation_level,
        ) + "\nСоберите его перед созданием спейса."@,
        EligibilityView::ManifestBroken(e) => "Манифест не читается: "@ + e,
    }
}

/// What the page of images says of a profile.
pub fn profile_info(row: &ProfileRow) -> (r: String)
    ensures
        r@ == profile_words(row@),
{
    match profile_eligibility(row) {
        ProfileEligibility::Ready => "Образ готов · уровень ".to_owned().concat(
            level_or_dash(row).as_str(),
        ).concat("\nНовая сборка не меняет уже созданные спейсы."),
        ProfileEligibility::NoTemplate => "Образ ещё не собран · уровень ".to_owned().concat(
            level_or_dash(row).as_str(),
        ).concat("\nСоберите его перед созданием спейса."),
        ProfileEligibility::ManifestBroken(e) => "Манифест не читается: ".to_owned().concat(
            e.as_str(),
        ),
    }
}

/// The subtitle of a profile in the list of images.
pub fn profile_subtitle(row: &ProfileRow) -> (r: &'static str)
    ensures
        r@ == (match eligibility(row@) {
            EligibilityView::ManifestBroken(_) => "Ошибка манифеста"@,
            EligibilityView::Ready => "Образ готов"@,
            EligibilityView::NoTemplate => "Нужна сборка"@,
        }),
{
    if !row.manifest_ok {
        "Ошибка манифеста"
    } else if row.template {
        "Образ готов"
    } else {
        "Нужна сборка"
    }
}

/// The first space with an id.
pub open spec fn find_row(spaces: Seq<SpaceRowView>, id: Seq<char>) -> Option<SpaceRowView>
    decreases spaces.len(),
{
    if spaces.len() == 0 {
        None
    } else if spaces[0].id == id {
        Some(spaces[0])
    } else {
        find_row(spaces.skip(1), id)
    }
}

pub fn row_of<'a>(spaces: &'a Vec<SpaceRow>, id: &str) -> (r: Option<&'a SpaceRow>)
    ensures
        match (r, find_row(row_views(spaces@), id@)) {
            (Some(row), Some(v)) => row@ == v,
            (None, None) => true,
            _ => false,
        },
{
    let ghost all = row_views(spaces@);
    assert(all.skip(0) =~= all);
    for i in 0..spaces.len()
        invariant
            all == row_views(spaces@),
            find_row(all.skip(i as int), id@) == find_row(all, id@),
    {
        assert(all.skip(i as int)[0] == spaces@[i as int]@);
        assert(all.skip(i as int).skip(1) =~= all.skip(i + 1));
        if str_equal(spaces[i].id.as_str(), id) {
            return Some(&spaces[i]);
        }
    }
    assert(all.skip(spaces@.len() as int) =~= seq![]);
    None
}

/// The profile of a space: an image is built for a profile that is known, not for one made up.
pub fn profile_for_build(spaces: &Vec<SpaceRow>, selected_id: &str) -> (r: Option<String>)
    ensures
        opt_text(r) == (match find_row(row_views(spaces@), selected_id@) {
            Some(row) => Some(row.profile),
            None => None,
        }),
{
    match row_of(spaces, selected_id) {
        Some(row) => Some(row.profile.clone()),
        None => None,
    }
}

/// The first profile with a name.
pub open spec fn find_profile(rows: Seq<ProfileRowView>, name: Seq<char>) -> Option<int>
    decreases rows.len(),
{
    if rows.len() == 0 {
        None
    } else if rows[0].profile == name {
        Some(0)
    } else {
        match find_profile(rows.skip(1), name) {
            Some(i) => Some(i + 1),
            None => None,
        }
    }
}

pub fn profile_index(rows: &Vec<ProfileRow>, name: &str) -> (r: Option<usize>)
    ensures
        match (r, find_profile(profile_views(rows@), name@)) {
            (Some(i), Some(j)) => i == j && i < rows@.len(),
            (None, None) => true,
            _ => false,
        },
{
    let ghost all = profile_views(rows@);
    assert(all.skip(0) =~= all);
    for i in 0..rows.len()
        invariant
            all == profile_views(rows@),
            find_profile(all, name@) == (match find_profile(all.skip(i as int), name@) {
                Some(k) => Some(k + i),
                None => None,
            }),
    {
        assert(all.skip(i as int)[0] == rows@[i as int]@);
        assert(all.skip(i as int).skip(1) =~= all.skip(i + 1));
        if str_equal(rows[i].profile.as_str(), name) {
            return Some(i);
        }
    }
    assert(all.skip(rows@.len() as int) =~= seq![]);
    None
}

/// A profile as it was typed; an empty one is no request.
pub fn normalize_profile_input(text: &str) -> (r: Option<String>)
    ensures
        opt_text(r) == (if trim(text@).len() == 0 {
            None
        } else {
            Some(trim(text@))
        }),
{
    let trimmed = chars_trim(&chars_of(text));
    if trimmed.len() == 0 {
        None
    } else {
        Some(string_of(&trimmed))
    }
}

// ---------------------------------------------------------------------------------------------
// Questions
// ---------------------------------------------------------------------------------------------

#[derive(Debug, Clone, Copy, PartialEq, Eq, Structural)]
pub enum ConfirmKind {
    Destroy,
    ResetAll,
    ResetSystem,
    UpdateImage,
}

pub open spec fn question(kind: ConfirmKind, id: Seq<char>) -> Seq<char> {
    match kind {
        ConfirmKind::Destroy => "Удалить спейс «"@ + id + "» безвозвратно? Действие необратимо."@,
        ConfirmKind::ResetAll => "Сбросить спейс «"@ + id
            + "» полностью — систему и данные? Действие необратимо. Новый /data будет пустым: повторного засева файлами не будет."@,
        ConfirmKind::ResetSystem => "Сбросить системный слой спейса «"@ + id
            + "»? Данные спейса не затрагиваются."@,
        ConfirmKind::UpdateImage => "Обновить образ спейса «"@ + id
            + "» на текущий шаблон профиля? Всё, что установлено в систему вручную поверх образа, будет потеряно. Том /data не затрагивается."@,
    }
}

/// What is asked before an operation that loses something: it names the loss.
pub fn confirm_message(kind: &ConfirmKind, space_id: &str) -> (r: String)
    ensures
        r@ == question(*kind, space_id@),
{
    match kind {
        ConfirmKind::Destroy => "Удалить спейс «".to_owned().concat(space_id).concat(
            "» безвозвратно? Действие необратимо.",
        ),
        ConfirmKind::ResetAll => "Сбросить спейс «".to_owned().concat(space_id).concat(
            "» полностью — систему и данные? Действие необратимо. Новый /data будет пустым: повторного засева файлами не будет.",
        ),
        ConfirmKind::ResetSystem => "Сбросить системный слой спейса «".to_owned().concat(
            space_id,
        ).concat("»? Данные спейса не затрагиваются."),
        ConfirmKind::UpdateImage => "Обновить образ спейса «".to_owned().concat(space_id).concat(
            "» на текущий шаблон профиля? Всё, что установлено в систему вручную поверх образа, будет потеряно. Том /data не затрагивается.",
        ),
    }
}

/// The operation that a question is asked about, and the button that confirms it.
pub fn confirm_op(kind: ConfirmKind) -> (r: (&'static str, &'static str))
    ensures
        r.0@ == confirmed_op(kind),
        r.1@ == (match kind {
            ConfirmKind::Destroy => "Удалить спейс"@,
            ConfirmKind::ResetAll => "Сбросить всё"@,
            ConfirmKind::ResetSystem => "Сбросить систему"@,
            ConfirmKind::UpdateImage => "Обновить образ"@,
        }),
{
    match kind {
        ConfirmKind::Destroy => ("destroy", "Удалить спейс"),
        ConfirmKind::ResetAll => ("reset-all", "Сбросить всё"),
        ConfirmKind::ResetSystem => ("reset-system", "Сбросить систему"),
        ConfirmKind::UpdateImage => ("update-image", "Обновить образ"),
    }
}

pub open spec fn confirmed_op(kind: ConfirmKind) -> Seq<char> {
    match kind {
        ConfirmKind::Destroy => "destroy"@,
        ConfirmKind::ResetAll => "reset-all"@,
        ConfirmKind::ResetSystem => "reset-system"@,
        ConfirmKind::UpdateImage => "update-image"@,
    }
}

// ---------------------------------------------------------------------------------------------
// Laws
// ---------------------------------------------------------------------------------------------

/// Nothing is offered to a space in a state that the daemon does not have, nor without a space,
/// but the building of an image.
pub proof fn an_unknown_state_is_offered_nothing(action: Action, state: Option<Seq<char>>)
    requires
        state != Some("running"@),
        state != Some("stopped"@),
        state != Some("unresponsive"@),
    ensures
        offered(action, state) <==> action == Action::Build,
{
}

/// A space that lives is offered nothing that would change its volumes under it, and one that
/// does not live is not offered to be stopped.
pub proof fn a_living_space_keeps_its_volumes(action: Action, state: Seq<char>)
    requires
        state == "running"@ || state == "unresponsive"@,
        action == Action::Start || action == Action::ResetSystem || action == Action::ResetAll
            || action == Action::UpdateImage || action == Action::Destroy,
    ensures
        !offered(action, Some(state)),
        !offered(Action::Stop, Some("stopped"@)),
{
    reveal_strlit("running");
    reveal_strlit("unresponsive");
    reveal_strlit("stopped");
    assert("running"@[0] != "stopped"@[0]);
    assert("unresponsive"@[0] != "stopped"@[0]);
}

/// A passphrase is asked for nothing but what opens the volumes of an encrypted space.
pub proof fn a_passphrase_is_asked_for_cause(
    op: Seq<char>,
    spaces: Seq<SpaceRowView>,
    id: Seq<char>,
)
    ensures
        passphrase_needed("destroy"@, spaces, id) == false,
        passphrase_needed("stop"@, spaces, id) == false,
        (forall|i: int|
            0 <= i < spaces.len() && (#[trigger] spaces[i]).id == id ==> !spaces[i].encrypted)
            ==> !passphrase_needed(op, spaces, id),
{
    reveal_strlit("destroy");
    reveal_strlit("stop");
    reveal_strlit("start");
    reveal_strlit("reset-system");
    reveal_strlit("reset-all");
    reveal_strlit("update-image");
    assert("destroy"@.len() == 7 && "stop"@.len() == 4);
    assert("start"@.len() == 5 && "reset-system"@.len() == 12 && "reset-all"@.len() == 9
        && "update-image"@.len() == 12);
}

/// A question names the space and what its operation takes away: everything, the system and the
/// data, the system alone, or what was installed by hand. Where the data stays, it says so.
pub proof fn a_question_names_the_loss(id: Seq<char>)
    ensures
        question(ConfirmKind::Destroy, id) == "Удалить спейс «"@ + id
            + "» безвозвратно? Действие необратимо."@,
        question(ConfirmKind::ResetAll, id) == "Сбросить спейс «"@ + id
            + "» полностью — систему и данные? Действие необратимо. Новый /data будет пустым: повторного засева файлами не будет."@,
        question(ConfirmKind::ResetSystem, id) == "Сбросить системный слой спейса «"@ + id
            + "»? Данные спейса не затрагиваются."@,
        question(ConfirmKind::UpdateImage, id) == "Обновить образ спейса «"@ + id
            + "» на текущий шаблон профиля? Всё, что установлено в систему вручную поверх образа, будет потеряно. Том /data не затрагивается."@,
{
}

/// A field of the form is accepted or the reason is told: an id and a label are slugs, an id is
/// new, a colour is a hash sign and six digits, and a passphrase is typed twice alike.
pub proof fn a_field_is_accepted_or_told_why(
    candidate: Seq<char>,
    existing: Seq<Seq<char>>,
    confirm: Seq<char>,
)
    ensures
        id_problem(candidate, existing) is None <==> is_slug(candidate) && !existing.contains(
            candidate,
        ),
        slug_problem(candidate) is None <==> is_slug(candidate),
        candidate.len() == 0 ==> slug_problem(candidate) == Some("не может быть пустым"@),
        candidate.len() > 0 && !is_slug(candidate) ==> slug_problem(candidate) == Some(
            "только строчные латинские буквы, цифры и дефис, не длиннее 32"@,
        ),
        !is_slug(candidate) ==> id_problem(candidate, existing) == slug_problem(candidate),
        is_slug(candidate) && existing.contains(candidate) ==> id_problem(candidate, existing)
            == Some("спейс «"@ + candidate + "» уже существует"@),
        color_problem(candidate) == (if is_color(candidate) {
            None
        } else {
            Some("цвет должен быть в формате #rrggbb"@)
        }),
        passphrase_problem(candidate, confirm) == (if candidate == confirm {
            None
        } else {
            Some("пароль и подтверждение не совпадают"@)
        }),
{
}

/// A profile in the list of the form carries its name and, unless its manifest cannot be read, its
/// level; an image that is still to be built is announced.
pub proof fn an_option_tells_what_is_missing(row: ProfileRowView, level: Seq<char>)
    requires
        row.isolation_level == Some(level),
    ensures
        row.manifest_ok && row.template ==> option_text(row) == row.profile + " ("@ + level + ")"@,
        row.manifest_ok && !row.template ==> option_text(row) == row.profile + " ("@ + level
            + ") — образ не собран"@,
        !row.manifest_ok ==> option_text(row) == row.profile + " — манифест не читается"@,
        row.manifest_ok && row.template <==> eligibility(row) is Ready,
        row.manifest_ok && !row.template <==> eligibility(row) is NoTemplate,
        !row.manifest_ok <==> eligibility(row) is ManifestBroken,
{
}

/// Each kind of profile has its own picture; a profile that nobody knows has the general one.
pub proof fn a_profile_has_a_picture(profile: Seq<char>)
    ensures
        profile == "tg"@ || profile == "telegram"@ ==> icon_of(profile) == "mail-send-symbolic"@,
        profile == "web"@ || profile == "browser"@ ==> icon_of(profile) == "web-browser-symbolic"@,
        profile == "dev"@ || profile == "kali"@ ==> icon_of(profile)
            == "utilities-terminal-symbolic"@,
        profile.len() < 2 || profile.len() > 8 ==> icon_of(profile)
            == "application-x-executable-symbolic"@,
{
    reveal_strlit("tg");
    reveal_strlit("telegram");
    reveal_strlit("web");
    reveal_strlit("browser");
    reveal_strlit("dev");
    reveal_strlit("kali");
    assert("tg"@.len() == 2 && "telegram"@.len() == 8 && "web"@.len() == 3 && "browser"@.len() == 7);
    assert("dev"@.len() == 3 && "kali"@.len() == 4);
    assert("dev"@[0] == 'd' && "web"@[0] == 'w');
}

} // verus!
