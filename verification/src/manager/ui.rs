//! What the manager's window knows, and how it changes: the requests that are on their way, the
//! space and the profile that are selected, the operation that runs, and the words that are shown.
//!
//! The widgets show this state and report what is done to them; they decide nothing.
use crate::bytes::{lowercase, to_lower};
use crate::manager::daemon::{cut, cut_progress};
use crate::manager::form::{
    checked, creation, creation_request, opt_profile, revalidate, FormCheck, FormInput, InputView,
};
use crate::manager::flow::{
    detail_refreshed, invalidated, is_current, list_refreshed, net_refreshed, no_requests,
    profiles_requested, room, selected_refreshed, sent, Flow, FlowView,
};
use crate::manager::request::{Request, RequestView};
use crate::manager::rules::{
    action_enabled, find_profile, find_row, needs_passphrase, normalize_profile_input, offered,
    opt_str_view, passphrase_needed, profile_for_build, profile_index, row_of, Action,
};
use crate::manager::view::{
    answer, detail_of, detail_row_views, detail_view, net_of, net_view, profile_views, profiles_of,
    profiles_view, row_views, spaces_of, spaces_view, DetailView, NetFacts, NetView, ProfileRow,
    ProfileRowView, ProfilesView, Reply, SpaceDetailRow, SpaceDetailRowView, SpaceRow, SpaceRowView,
    SpacesView,
};
use crate::text::{
    char_texts, chars_lines, chars_of, join, join_strings, lines, occurs, occurs_at, opt_str_equal, opt_text,
    push_text, str_contains, str_equal, string_of, strings_contain, texts, trim,
};
use vstd::prelude::*;

verus! {

/// How many lines of progress are kept.
pub const PROGRESS_LINES: usize = 200;

// ---------------------------------------------------------------------------------------------
// The state
// ---------------------------------------------------------------------------------------------

#[derive(Debug, Clone, Copy, PartialEq, Eq, Structural)]
pub enum Page {
    Spaces,
    Images,
    Network,
}

/// What has to be known of an operation when it is over.
pub enum PendingKind {
    /// The space that is created is selected and offered to be started.
    Create { new_id: String, encrypted: bool },
    /// The passphrase is asked for again if it was wrong.
    Passphrase { op: String, space: String },
    Other,
}

pub enum KindView {
    Create { new_id: Seq<char>, encrypted: bool },
    Passphrase { op: Seq<char>, space: Seq<char> },
    Other,
}

impl View for PendingKind {
    type V = KindView;

    open spec fn view(&self) -> KindView {
        match *self {
            PendingKind::Create { new_id, encrypted } => KindView::Create {
                new_id: new_id@,
                encrypted,
            },
            PendingKind::Passphrase { op, space } => KindView::Passphrase {
                op: op@,
                space: space@,
            },
            PendingKind::Other => KindView::Other,
        }
    }
}

/// The operation that runs.
pub struct PendingAction {
    pub id: u64,
    pub label: String,
    pub kind: PendingKind,
}

pub struct PendingView {
    pub id: nat,
    pub label: Seq<char>,
    pub kind: KindView,
}

impl View for PendingAction {
    type V = PendingView;

    open spec fn view(&self) -> PendingView {
        PendingView { id: self.id as nat, label: self.label@, kind: self.kind@ }
    }
}

/// The form, while it is open.
pub struct Dialog {
    pub profiles: Vec<ProfileRow>,
    pub index: usize,
    pub status: Option<String>,
    /// That the profiles are not to be had.
    pub failure: Option<String>,
}

pub struct DialogState {
    pub profiles: Seq<ProfileRowView>,
    pub index: nat,
    pub status: Option<Seq<char>>,
    pub failure: Option<Seq<char>>,
}

impl View for Dialog {
    type V = DialogState;

    open spec fn view(&self) -> DialogState {
        DialogState {
            profiles: profile_views(self.profiles@),
            index: self.index as nat,
            status: opt_text(self.status),
            failure: opt_text(self.failure),
        }
    }
}

/// What the user is to be asked.
pub enum Prompt {
    /// The passphrase, again.
    Passphrase { op: String, space: String, label: String },
    /// Whether the new space is to be started.
    StartCreated { id: String, encrypted: bool },
}

pub enum PromptView {
    Passphrase { op: Seq<char>, space: Seq<char>, label: Seq<char> },
    StartCreated { id: Seq<char>, encrypted: bool },
}

impl View for Prompt {
    type V = PromptView;

    open spec fn view(&self) -> PromptView {
        match *self {
            Prompt::Passphrase { op, space, label } => PromptView::Passphrase {
                op: op@,
                space: space@,
                label: label@,
            },
            Prompt::StartCreated { id, encrypted } => PromptView::StartCreated {
                id: id@,
                encrypted,
            },
        }
    }
}

pub open spec fn opt_prompt(p: Option<Prompt>) -> Option<PromptView> {
    match p {
        Some(p) => Some(p@),
        None => None,
    }
}

/// The list of spaces.
pub struct Sidebar {
    pub spaces: Vec<SpaceRow>,
    pub selected: Option<String>,
    /// A space that is selected as soon as it is listed.
    pub pending_select: Option<String>,
    pub query: String,
    pub running_only: bool,
    pub message: Option<String>,
}

pub struct SidebarView {
    pub spaces: Seq<SpaceRowView>,
    pub selected: Option<Seq<char>>,
    pub pending_select: Option<Seq<char>>,
    pub query: Seq<char>,
    pub running_only: bool,
    pub message: Option<Seq<char>>,
}

impl View for Sidebar {
    type V = SidebarView;

    open spec fn view(&self) -> SidebarView {
        SidebarView {
            spaces: row_views(self.spaces@),
            selected: opt_text(self.selected),
            pending_select: opt_text(self.pending_select),
            query: self.query@,
            running_only: self.running_only,
            message: opt_text(self.message),
        }
    }
}

/// What is shown of the selected space.
pub struct Detail {
    pub header: bool,
    pub visible: bool,
    pub message: Option<String>,
    /// Whether the message says that there is nothing, and not that something is wrong.
    pub empty: bool,
    pub rows: Vec<SpaceDetailRow>,
    pub log: String,
}

pub struct DetailState {
    pub header: bool,
    pub visible: bool,
    pub message: Option<Seq<char>>,
    pub empty: bool,
    pub rows: Seq<SpaceDetailRowView>,
    pub log: Seq<char>,
}

impl View for Detail {
    type V = DetailState;

    open spec fn view(&self) -> DetailState {
        DetailState {
            header: self.header,
            visible: self.visible,
            message: opt_text(self.message),
            empty: self.empty,
            rows: detail_row_views(self.rows@),
            log: self.log@,
        }
    }
}

/// The profiles.
pub struct Images {
    pub profiles: Vec<ProfileRow>,
    pub selected: Option<String>,
    pub message: Option<String>,
}

pub struct ImagesView {
    pub profiles: Seq<ProfileRowView>,
    pub selected: Option<Seq<char>>,
    pub message: Option<Seq<char>>,
}

impl View for Images {
    type V = ImagesView;

    open spec fn view(&self) -> ImagesView {
        ImagesView {
            profiles: profile_views(self.profiles@),
            selected: opt_text(self.selected),
            message: opt_text(self.message),
        }
    }
}

/// The operation that runs, or the last one.
pub struct Operation {
    pub pending: Option<PendingAction>,
    pub visible: bool,
    pub title: String,
    pub status: String,
    pub failed: bool,
    /// The line at the foot of the window.
    pub summary: String,
    pub progress: Vec<String>,
}

pub struct OperationView {
    pub pending: Option<PendingView>,
    pub visible: bool,
    pub title: Seq<char>,
    pub status: Seq<char>,
    pub failed: bool,
    pub summary: Seq<char>,
    pub progress: Seq<Seq<char>>,
}

impl View for Operation {
    type V = OperationView;

    open spec fn view(&self) -> OperationView {
        OperationView {
            pending: match self.pending {
                Some(p) => Some(p@),
                None => None,
            },
            visible: self.visible,
            title: self.title@,
            status: self.status@,
            failed: self.failed,
            summary: self.summary@,
            progress: texts(self.progress@),
        }
    }
}

pub struct Ui {
    pub flow: Flow,
    pub page: Page,
    pub sidebar: Sidebar,
    pub detail: Detail,
    pub images: Images,
    pub net: Option<Result<NetView, String>>,
    pub operation: Operation,
    pub dialog: Option<Dialog>,
}

pub struct UiView {
    pub flow: FlowView,
    pub page: Page,
    pub sidebar: SidebarView,
    pub detail: DetailState,
    pub images: ImagesView,
    pub net: Option<Result<NetFacts, Seq<char>>>,
    pub operation: OperationView,
    pub dialog: Option<DialogState>,
}

pub open spec fn net_facts(net: Result<NetView, String>) -> Result<NetFacts, Seq<char>> {
    match net {
        Ok(n) => Ok(n@),
        Err(e) => Err(e@),
    }
}

impl View for Ui {
    type V = UiView;

    open spec fn view(&self) -> UiView {
        UiView {
            flow: self.flow@,
            page: self.page,
            sidebar: self.sidebar@,
            detail: self.detail@,
            images: self.images@,
            net: match self.net {
                Some(n) => Some(net_facts(n)),
                None => None,
            },
            operation: self.operation@,
            dialog: match self.dialog {
                Some(d) => Some(d@),
                None => None,
            },
        }
    }
}

/// There are numbers for whatever may happen next.
pub open spec fn has_room(s: UiView) -> bool {
    room(s.flow, 4)
}

/// The numbers that are waited for.
pub open spec fn flights(s: UiView) -> Seq<nat> {
    seq![
        s.flow.latest_list,
        s.flow.latest_detail,
        s.flow.latest_net,
        s.flow.latest_profiles,
        match s.operation.pending {
            Some(p) => p.id,
            None => 0,
        },
    ]
}

/// Two numbers that are waited for are not the same.
pub open spec fn apart(a: nat, b: nat) -> bool {
    a == 0 || a != b
}

/// What always holds: a number that is waited for has been given out, to one request alone, and
/// the progress is bounded.
pub open spec fn is_sound(s: UiView) -> bool {
    is_sound_with(s.flow, s.operation)
}

pub open spec fn is_sound_with(f: FlowView, o: OperationView) -> bool {
    let action = match o.pending {
        Some(p) => p.id,
        None => 0,
    };
    &&& f.latest_list <= f.next_id
    &&& f.latest_detail <= f.next_id
    &&& f.latest_net <= f.next_id
    &&& f.latest_profiles <= f.next_id
    &&& action <= f.next_id
    &&& apart(f.latest_list, f.latest_detail)
    &&& apart(f.latest_list, f.latest_net)
    &&& apart(f.latest_list, f.latest_profiles)
    &&& apart(f.latest_list, action)
    &&& apart(f.latest_detail, f.latest_net)
    &&& apart(f.latest_detail, f.latest_profiles)
    &&& apart(f.latest_detail, action)
    &&& apart(f.latest_net, f.latest_profiles)
    &&& apart(f.latest_net, action)
    &&& apart(f.latest_profiles, action)
    &&& o.pending is Some ==> action != 0
    &&& o.progress.len() <= PROGRESS_LINES
}

/// A window that has just been opened.
pub open spec fn fresh() -> UiView {
    UiView {
        flow: no_requests(),
        page: Page::Spaces,
        sidebar: SidebarView {
            spaces: seq![],
            selected: None,
            pending_select: None,
            query: ""@,
            running_only: false,
            message: Some("Загрузка спейсов…"@),
        },
        detail: DetailState {
            header: false,
            visible: false,
            message: Some("Загрузка спейсов…"@),
            empty: false,
            rows: seq![],
            log: ""@,
        },
        images: ImagesView {
            profiles: seq![],
            selected: None,
            message: Some("Загрузка профилей…"@),
        },
        net: None,
        operation: OperationView {
            pending: None,
            visible: false,
            title: ""@,
            status: ""@,
            failed: false,
            summary: ""@,
            progress: seq![],
        },
        dialog: None,
    }
}

// ---------------------------------------------------------------------------------------------
// Requests
// ---------------------------------------------------------------------------------------------

/// The reads of the page that is shown, and of the form.
pub open spec fn polled(s: UiView) -> UiView {
    let listed = list_refreshed(s.flow);
    let read = match s.page {
        Page::Network => net_refreshed(listed),
        Page::Images => profiles_requested(listed),
        Page::Spaces => selected_refreshed(listed, s.sidebar.selected),
    };
    UiView {
        flow: if s.dialog is Some {
            profiles_requested(read)
        } else {
            read
        },
        ..s
    }
}

/// An operation that has just begun.
pub open spec fn begun(id: nat, label: Seq<char>, kind: KindView) -> OperationView {
    OperationView {
        pending: Some(PendingView { id, label, kind }),
        visible: true,
        title: label,
        status: "Выполняется…"@,
        failed: false,
        summary: label + "…"@,
        progress: seq![],
    }
}

/// An operation begins, unless one runs.
pub open spec fn action_sent(s: UiView, r: RequestView, label: Seq<char>, kind: KindView) -> UiView {
    if s.flow.closed || !s.flow.connected || s.operation.pending is Some {
        s
    } else {
        UiView {
            flow: sent(s.flow, r),
            operation: begun(s.flow.next_id + 1, label, kind),
            ..s
        }
    }
}

impl Operation {
    fn begin(id: u64, label: String, kind: PendingKind) -> (r: Operation)
        ensures
            r@ == begun(id as nat, label@, kind@),
    {
        let r = Operation {
            title: label.clone(),
            summary: label.clone().concat("…"),
            pending: Some(PendingAction { id, label, kind }),
            visible: true,
            status: "Выполняется…".to_owned(),
            failed: false,
            progress: Vec::new(),
        };
        assert(texts(r.progress@) =~= seq![]);
        r
    }
}

impl Ui {
    pub fn new() -> (r: Ui)
        ensures
            r@ == fresh(),
            is_sound(r@),
            has_room(r@),
    {
        let r = Ui {
            flow: Flow::new(),
            page: Page::Spaces,
            sidebar: Sidebar {
                spaces: Vec::new(),
                selected: None,
                pending_select: None,
                query: "".to_owned(),
                running_only: false,
                message: Some("Загрузка спейсов…".to_owned()),
            },
            detail: Detail {
                header: false,
                visible: false,
                message: Some("Загрузка спейсов…".to_owned()),
                empty: false,
                rows: Vec::new(),
                log: "".to_owned(),
            },
            images: Images {
                profiles: Vec::new(),
                selected: None,
                message: Some("Загрузка профилей…".to_owned()),
            },
            net: None,
            operation: Operation {
                pending: None,
                visible: false,
                title: "".to_owned(),
                status: "".to_owned(),
                failed: false,
                summary: "".to_owned(),
                progress: Vec::new(),
            },
            dialog: None,
        };
        assert(row_views(r.sidebar.spaces@) =~= seq![]);
        assert(detail_row_views(r.detail.rows@) =~= seq![]);
        assert(profile_views(r.images.profiles@) =~= seq![]);
        assert(texts(r.operation.progress@) =~= seq![]);
        r
    }

    /// Whether the numbers of requests and selections have not run out.
    pub fn has_room(&self) -> (r: bool)
        ensures
            r == has_room(self@),
    {
        self.flow.next_id <= u64::MAX - 4 && self.flow.epoch <= u64::MAX - 4
    }

    /// Reads what is shown anew.
    pub fn poll_refresh(&mut self)
        requires
            room(old(self)@.flow, 3),
        ensures
            final(self)@ == polled(old(self)@),
    {
        self.flow.refresh_list();
        match self.page {
            Page::Network => {
                self.flow.refresh_net();
            },
            Page::Images => {
                self.flow.request_profiles();
            },
            Page::Spaces => {
                self.flow.refresh_selected(&self.sidebar.selected);
            },
        }
        if self.dialog.is_some() {
            self.flow.request_profiles();
        }
    }

    /// Begins an operation, unless one runs.
    pub fn send_action(&mut self, request: Request, label: String, kind: PendingKind)
        requires
            room(old(self)@.flow, 1),
        ensures
            final(self)@ == action_sent(old(self)@, request@, label@, kind@),
    {
        if self.flow.closed || !self.flow.connected || self.operation.pending.is_some() {
            return;
        }
        let id: u64 = self.flow.send(request);
        self.operation = Operation::begin(id, label, kind);
    }
}

// ---------------------------------------------------------------------------------------------
// Progress
// ---------------------------------------------------------------------------------------------

/// The last lines of some.
pub open spec fn last_lines(all: Seq<Seq<char>>) -> Seq<Seq<char>> {
    if all.len() > PROGRESS_LINES {
        all.skip(all.len() - PROGRESS_LINES)
    } else {
        all
    }
}

/// Progress with the lines of a text, each cut, of which the last are kept.
pub open spec fn progress_with(progress: Seq<Seq<char>>, text: Seq<char>) -> Seq<Seq<char>> {
    last_lines(progress + lines(text).map_values(|l: Seq<char>| cut(l)))
}

pub open spec fn with_status(dialog: Option<DialogState>, text: Seq<char>) -> Option<DialogState> {
    match dialog {
        Some(d) => Some(DialogState { status: Some(text), ..d }),
        None => None,
    }
}

/// News of the operation that runs; those of another one do not count.
pub open spec fn progressed(s: UiView, id: nat, text: Seq<char>) -> UiView {
    if s.operation.pending matches Some(p) && p.id == id {
        UiView {
            operation: OperationView {
                progress: progress_with(s.operation.progress, text),
                status: text,
                summary: text,
                ..s.operation
            },
            dialog: with_status(s.dialog, text),
            ..s
        }
    } else {
        s
    }
}

impl Operation {
    fn append_progress(&mut self, text: &str)
        requires
            old(self)@.progress.len() <= PROGRESS_LINES,
        ensures
            final(self)@ == (OperationView {
                progress: progress_with(old(self)@.progress, text@),
                ..old(self)@
            }),
    {
        let all = chars_lines(&chars_of(text));
        let ghost start = self@;
        let ghost cuts = lines(text@).map_values(|l: Seq<char>| cut(l));
        assert(start.progress + cuts.take(0) =~= start.progress);
        for i in 0..all.len()
            invariant
                char_texts(all@) == lines(text@),
                cuts == lines(text@).map_values(|l: Seq<char>| cut(l)),
                start.progress.len() <= PROGRESS_LINES,
                self@ == (OperationView {
                    progress: last_lines(start.progress + cuts.take(i as int)),
                    ..start
                }),
        {
            let ghost before = self@.progress;
            let line = string_of(&all[i]);
            assert(line@ == lines(text@)[i as int]);
            push_text(&mut self.progress, cut_progress(line.as_str()).as_str());
            let ghost longer = start.progress + cuts.take(i + 1);
            assert(cuts.take(i + 1) =~= cuts.take(i as int).push(cut(line@)));
            assert(longer =~= (start.progress + cuts.take(i as int)).push(cut(line@)));
            assert(texts(self.progress@) == before.push(cut(line@)));
            if self.progress.len() > PROGRESS_LINES {
                let ghost full = self.progress@;
                self.progress.remove(0);
                assert(texts(self.progress@) =~= texts(full).skip(1));
            }
            assert(texts(self.progress@) =~= last_lines(longer));
        }
        assert(cuts.take(all@.len() as int) =~= cuts);
    }

    /// The progress as one text.
    pub fn progress_text(&self) -> (r: String)
        ensures
            r@ == join(self@.progress, "\n"@),
    {
        join_strings(&self.progress, "\n")
    }
}

impl Ui {
    fn set_dialog_status(&mut self, text: &str)
        ensures
            final(self)@ == (UiView {
                dialog: with_status(old(self)@.dialog, text@),
                ..old(self)@
            }),
    {
        if let Some(d) = &mut self.dialog {
            d.status = Some(text.to_owned());
        }
    }

    /// Shows the news of an operation.
    pub fn handle_progress(&mut self, request_id: u64, text: &str)
        requires
            is_sound(old(self)@),
        ensures
            final(self)@ == progressed(old(self)@, request_id as nat, text@),
    {
        let ours = match &self.operation.pending {
            Some(action) => action.id == request_id,
            None => false,
        };
        if !ours {
            return;
        }
        self.operation.append_progress(text);
        self.operation.status = text.to_owned();
        self.operation.summary = text.to_owned();
        self.set_dialog_status(text);
    }
}

// ---------------------------------------------------------------------------------------------
// Selecting
// ---------------------------------------------------------------------------------------------

pub open spec fn row_at(spaces: Seq<SpaceRowView>, id: Option<Seq<char>>) -> Option<SpaceRowView> {
    match id {
        Some(id) => find_row(spaces, id),
        None => None,
    }
}

/// The state with another selection: what was shown of the old one goes.
pub open spec fn reselected(s: UiView, id: Option<Seq<char>>) -> UiView {
    if s.sidebar.selected == id {
        s
    } else {
        UiView {
            flow: FlowView { epoch: s.flow.epoch + 1, ..s.flow },
            sidebar: SidebarView { selected: id, ..s.sidebar },
            detail: DetailState { visible: false, log: ""@, ..s.detail },
            ..s
        }
    }
}

/// A space is shown. It is described unless its description is there.
pub open spec fn space_shown(s: UiView, id: Seq<char>) -> UiView {
    if s.detail.visible {
        UiView { detail: DetailState { header: true, ..s.detail }, ..s }
    } else {
        UiView {
            flow: detail_refreshed(s.flow, id),
            detail: DetailState {
                header: true,
                message: Some("Загрузка сведений…"@),
                empty: false,
                ..s.detail
            },
            ..s
        }
    }
}

/// No space is shown.
pub open spec fn nothing_shown(s: UiView) -> UiView {
    UiView {
        detail: DetailState {
            header: false,
            visible: false,
            message: Some(
                if s.sidebar.spaces.len() == 0 {
                    "Спейсов пока нет. Нажмите «Создать спейс»."@
                } else {
                    "Нет спейсов, подходящих под фильтр."@
                },
            ),
            empty: true,
            ..s.detail
        },
        ..s
    }
}

/// A space is selected, or none.
pub open spec fn space_selected(s: UiView, id: Option<Seq<char>>) -> UiView {
    match row_at(s.sidebar.spaces, id) {
        Some(row) => space_shown(reselected(s, id), row.id),
        None => nothing_shown(reselected(s, id)),
    }
}

/// Whether a space passes the filter. Nothing typed lets everything pass.
pub open spec fn passes(row: SpaceRowView, query: Seq<char>, running_only: bool) -> bool {
    (!running_only || row.state == "running"@) && (query.len() == 0 || occurs(
        lowercase(row.id + " "@ + row.profile + " "@ + row.label),
        lowercase(query),
    ))
}

/// The spaces that pass the filter.
pub open spec fn visible(spaces: Seq<SpaceRowView>, query: Seq<char>, running_only: bool) -> Seq<
    Seq<char>,
>
    decreases spaces.len(),
{
    if spaces.len() == 0 {
        seq![]
    } else {
        let front = visible(spaces.drop_last(), query, running_only);
        if passes(spaces.last(), query, running_only) {
            front.push(spaces.last().id)
        } else {
            front
        }
    }
}

/// What is selected among what is visible: what was, else the first.
pub open spec fn target(shown: Seq<Seq<char>>, previous: Option<Seq<char>>) -> Option<Seq<char>> {
    if previous matches Some(id) && shown.contains(id) {
        previous
    } else if shown.len() > 0 {
        Some(shown[0])
    } else {
        None
    }
}

pub open spec fn shown_ids(s: SidebarView) -> Seq<Seq<char>> {
    visible(s.spaces, s.query, s.running_only)
}

/// What is said in the place of a list that shows nothing.
pub open spec fn empty_words(s: SidebarView) -> Option<Seq<char>> {
    if shown_ids(s).len() > 0 {
        None
    } else if s.spaces.len() == 0 {
        Some("Спейсов пока нет. Создайте первый."@)
    } else {
        Some("Ничего не найдено."@)
    }
}

/// The filter is applied.
pub open spec fn filtered(s: UiView) -> UiView {
    let t = space_selected(s, target(shown_ids(s.sidebar), s.sidebar.selected));
    if s.flow.connected {
        UiView {
            sidebar: SidebarView { message: empty_words(s.sidebar), ..t.sidebar },
            ..t
        }
    } else {
        t
    }
}

impl Sidebar {
    /// The ids of the spaces that pass the filter.
    pub fn visible_spaces(&self) -> (r: Vec<String>)
        ensures
            texts(r@) == shown_ids(self@),
    {
        let query = to_lower(self.query.as_str());
        let ghost all = self@.spaces;
        let mut out: Vec<String> = Vec::new();
        assert(all.take(0) =~= seq![]);
        assert(texts(out@) =~= seq![]);
        for i in 0..self.spaces.len()
            invariant
                all == row_views(self.spaces@),
                query@ == lowercase(self.query@),
                self.query@.len() == 0 ==> query@.len() == 0,
                texts(out@) == visible(all.take(i as int), self.query@, self.running_only),
        {
            let row = &self.spaces[i];
            assert(all.take(i + 1).drop_last() =~= all.take(i as int));
            assert(all.take(i + 1).last() == row@);
            let words = row.id.clone().concat(" ").concat(row.profile.as_str()).concat(
                " ",
            ).concat(row.label.as_str());
            let words = to_lower(words.as_str());
            proof {
                if query@.len() == 0 {
                    assert(words@.subrange(0, 0) =~= query@);
                    assert(occurs_at(words@, query@, 0));
                }
            }
            if (!self.running_only || str_equal(row.state.as_str(), "running")) && str_contains(
                words.as_str(),
                query.as_str(),
            ) {
                push_text(&mut out, row.id.as_str());
            }
        }
        assert(all.take(self.spaces@.len() as int) =~= all);
        out
    }

    fn target(&self, shown: &Vec<String>) -> (r: Option<String>)
        ensures
            opt_text(r) == target(texts(shown@), self@.selected),
    {
        if let Some(id) = &self.selected {
            if strings_contain(shown, id.as_str()) {
                return Some(id.clone());
            }
        }
        if shown.len() > 0 {
            assert(texts(shown@)[0] == shown@[0]@);
            Some(shown[0].clone())
        } else {
            None
        }
    }
}

impl Ui {
    fn reselect(&mut self, selected: Option<String>)
        requires
            room(old(self)@.flow, 1),
        ensures
            final(self)@ == reselected(old(self)@, opt_text(selected)),
    {
        if !opt_str_equal(&self.sidebar.selected, &selected) {
            self.flow.epoch = self.flow.epoch + 1;
            self.sidebar.selected = selected;
            self.detail.visible = false;
            self.detail.log = "".to_owned();
        }
    }

    fn show_space(&mut self, id: String)
        requires
            old(self)@.flow.next_id < u64::MAX,
        ensures
            final(self)@ == space_shown(old(self)@, id@),
    {
        self.detail.header = true;
        if !self.detail.visible {
            self.detail.message = Some("Загрузка сведений…".to_owned());
            self.detail.empty = false;
            self.flow.refresh_detail(id);
        }
    }

    fn show_nothing(&mut self)
        ensures
            final(self)@ == nothing_shown(old(self)@),
    {
        let message = if self.sidebar.spaces.len() == 0 {
            "Спейсов пока нет. Нажмите «Создать спейс».".to_owned()
        } else {
            "Нет спейсов, подходящих под фильтр.".to_owned()
        };
        self.detail.header = false;
        self.detail.visible = false;
        self.detail.message = Some(message);
        self.detail.empty = true;
    }

    pub fn select_space(&mut self, selected: Option<String>)
        requires
            room(old(self)@.flow, 1),
        ensures
            final(self)@ == space_selected(old(self)@, opt_text(selected)),
    {
        let row = match &selected {
            Some(id) => match row_of(&self.sidebar.spaces, id.as_str()) {
                Some(row) => Some(row.id.clone()),
                None => None,
            },
            None => None,
        };
        self.reselect(selected);
        match row {
            Some(id) => {
                self.show_space(id);
            },
            None => {
                self.show_nothing();
            },
        }
    }

    /// Applies the filter.
    pub fn filter_spaces(&mut self)
        requires
            room(old(self)@.flow, 1),
        ensures
            final(self)@ == filtered(old(self)@),
    {
        let shown = self.sidebar.visible_spaces();
        let words = if shown.len() > 0 {
            None
        } else if self.sidebar.spaces.len() == 0 {
            Some("Спейсов пока нет. Создайте первый.".to_owned())
        } else {
            Some("Ничего не найдено.".to_owned())
        };
        assert(texts(shown@).len() == shown@.len());
        let connected = self.flow.connected;
        let chosen = self.sidebar.target(&shown);
        self.select_space(chosen);
        if connected {
            self.sidebar.message = words;
        }
    }

    /// Changes the filter.
    pub fn set_filter(&mut self, query: String, running_only: bool)
        requires
            room(old(self)@.flow, 1),
        ensures
            final(self)@ == filtered(
                UiView {
                    sidebar: SidebarView { query: query@, running_only, ..old(self)@.sidebar },
                    ..old(self)@
                },
            ),
    {
        self.sidebar.query = query;
        self.sidebar.running_only = running_only;
        self.filter_spaces();
    }
}

// ---------------------------------------------------------------------------------------------
// What the daemon answers
// ---------------------------------------------------------------------------------------------

/// The daemon is lost, and with it all that was known of the spaces.
pub open spec fn disconnected(s: UiView) -> UiView {
    UiView {
        flow: FlowView { connected: false, epoch: s.flow.epoch + 1, ..s.flow },
        sidebar: SidebarView { spaces: seq![], ..s.sidebar },
        ..s
    }
}

/// The spaces that are listed. One that was waited for is selected, whatever the filter was.
pub open spec fn listed_spaces(s: UiView, rows: Seq<SpaceRowView>) -> UiView {
    if row_at(rows, s.sidebar.pending_select) is Some {
        UiView {
            flow: FlowView { connected: true, epoch: s.flow.epoch + 1, ..s.flow },
            sidebar: SidebarView {
                spaces: rows,
                selected: s.sidebar.pending_select,
                pending_select: None,
                query: ""@,
                running_only: false,
                ..s.sidebar
            },
            detail: DetailState { visible: false, log: ""@, ..s.detail },
            ..s
        }
    } else {
        UiView {
            flow: FlowView { connected: true, ..s.flow },
            sidebar: SidebarView { spaces: rows, ..s.sidebar },
            ..s
        }
    }
}

/// That the spaces are not to be had, in the words of the daemon.
pub open spec fn unavailable(s: UiView, message: Seq<char>) -> UiView {
    UiView {
        sidebar: SidebarView { message: Some(message), ..s.sidebar },
        detail: DetailState {
            message: Some("Спейсы недоступны. Ожидаем подключения к демону."@),
            empty: false,
            ..s.detail
        },
        ..s
    }
}

/// The new list of spaces, or that there is none to be had.
pub open spec fn spaces_rendered(s: UiView, view: Result<Seq<SpaceRowView>, Seq<char>>) -> UiView {
    match view {
        Err(message) => unavailable(space_selected(disconnected(s), None), message),
        Ok(rows) => filtered(listed_spaces(s, rows)),
    }
}

/// What is shown of a space once it has been described.
pub open spec fn described(
    d: DetailState,
    view: Result<(Seq<SpaceDetailRowView>, Seq<Seq<char>>), Seq<char>>,
) -> DetailState {
    match view {
        Err(message) => DetailState {
            message: Some(message),
            empty: false,
            visible: false,
            log: ""@,
            ..d
        },
        Ok(found) => DetailState {
            message: None,
            rows: found.0,
            visible: true,
            log: join(found.1, "\n"@),
            ..d
        },
    }
}

/// The profile that is selected: what was, if it is there, else the first.
pub open spec fn kept_profile(rows: Seq<ProfileRowView>, previous: Option<Seq<char>>) -> Option<
    Seq<char>,
> {
    if previous matches Some(name) && find_profile(rows, name) is Some {
        previous
    } else if rows.len() > 0 {
        Some(rows[0].profile)
    } else {
        None
    }
}

pub open spec fn dialog_profile(d: DialogState) -> Option<ProfileRowView> {
    if d.index < d.profiles.len() {
        Some(d.profiles[d.index as int])
    } else {
        None
    }
}

/// The form with new profiles: what was selected in it stays selected, if it is there.
pub open spec fn dialog_profiles(
    d: DialogState,
    rows: Seq<ProfileRowView>,
    failure: Option<Seq<char>>,
) -> DialogState {
    DialogState {
        profiles: rows,
        index: if d.profiles == rows {
            d.index
        } else {
            match dialog_profile(d) {
                Some(p) => match find_profile(rows, p.profile) {
                    Some(i) => i as nat,
                    None => 0,
                },
                None => 0,
            }
        },
        failure: match failure {
            Some(e) => Some("Профили недоступны: "@ + e),
            None => None,
        },
        ..d
    }
}

/// The profiles, or that there are none to be had.
pub open spec fn profiled(s: ImagesView, rows: Seq<ProfileRowView>, failure: Option<Seq<char>>) -> ImagesView {
    ImagesView {
        profiles: rows,
        selected: kept_profile(rows, s.selected),
        message: match failure {
            Some(message) => Some(message),
            None => if rows.len() == 0 {
                Some("Профилей пока нет. Добавьте профиль в каталог профилей демона."@)
            } else {
                None
            },
        },
    }
}

pub open spec fn profiles_rendered(
    s: UiView,
    view: Result<Seq<ProfileRowView>, Seq<char>>,
) -> UiView {
    let rows = match view {
        Ok(rows) => rows,
        Err(_) => seq![],
    };
    let failure = match view {
        Ok(_) => None,
        Err(message) => Some(message),
    };
    UiView {
        images: profiled(s.images, rows, failure),
        dialog: match s.dialog {
            Some(d) => Some(dialog_profiles(d, rows, failure)),
            None => None,
        },
        ..s
    }
}

fn profiles_equal(a: &Vec<ProfileRow>, b: &Vec<ProfileRow>) -> (r: bool)
    ensures
        r == (profile_views(a@) == profile_views(b@)),
{
    let ghost x = profile_views(a@);
    let ghost y = profile_views(b@);
    if a.len() != b.len() {
        assert(x.len() != y.len());
        return false;
    }
    for i in 0..a.len()
        invariant
            x == profile_views(a@),
            y == profile_views(b@),
            a@.len() == b@.len(),
            forall|j: int| 0 <= j < i ==> #[trigger] x[j] == y[j],
    {
        assert(x[i as int] == a@[i as int]@ && y[i as int] == b@[i as int]@);
        let p = &a[i];
        let q = &b[i];
        if !(p.template == q.template && p.manifest_ok == q.manifest_ok && str_equal(
            p.profile.as_str(),
            q.profile.as_str(),
        ) && opt_str_equal(&p.isolation_level, &q.isolation_level) && opt_str_equal(
            &p.manifest_error,
            &q.manifest_error,
        )) {
            assert(x[i as int] != y[i as int]);
            return false;
        }
    }
    assert(x =~= y);
    true
}

fn copy_profiles(rows: &Vec<ProfileRow>) -> (r: Vec<ProfileRow>)
    ensures
        profile_views(r@) == profile_views(rows@),
{
    let ghost all = profile_views(rows@);
    let mut out: Vec<ProfileRow> = Vec::new();
    assert(profile_views(out@) =~= all.take(0));
    for i in 0..rows.len()
        invariant
            all == profile_views(rows@),
            profile_views(out@) == all.take(i as int),
    {
        let row = rows[i].copy();
        let ghost before = profile_views(out@);
        out.push(row);
        assert(profile_views(out@) =~= before.push(row@));
        assert(all.take(i + 1) =~= all.take(i as int).push(all[i as int]));
    }
    assert(all.take(rows@.len() as int) =~= all);
    out
}

impl Dialog {
    /// The profile that is selected in the form.
    pub fn selected_profile(&self) -> (r: Option<&ProfileRow>)
        ensures
            opt_profile(r) == dialog_profile(self@),
    {
        if self.index < self.profiles.len() {
            Some(&self.profiles[self.index])
        } else {
            None
        }
    }

    fn take_profiles(&mut self, rows: &Vec<ProfileRow>, failure: &Option<String>)
        ensures
            final(self)@ == dialog_profiles(
                old(self)@,
                profile_views(rows@),
                opt_text(*failure),
            ),
    {
        if !profiles_equal(&self.profiles, rows) {
            let index: usize = match self.selected_profile() {
                Some(p) => match profile_index(rows, p.profile.as_str()) {
                    Some(i) => i,
                    None => 0,
                },
                None => 0,
            };
            self.profiles = copy_profiles(rows);
            self.index = index;
        }
        self.failure = match failure {
            Some(e) => Some("Профили недоступны: ".to_owned().concat(e.as_str())),
            None => None,
        };
    }
}

impl Images {
    fn take_profiles(&mut self, rows: Vec<ProfileRow>, failure: Option<String>)
        ensures
            final(self)@ == profiled(old(self)@, profile_views(rows@), opt_text(failure)),
    {
        let keep = match &self.selected {
            Some(name) => profile_index(&rows, name.as_str()).is_some(),
            None => false,
        };
        if !keep {
            self.selected = if rows.len() > 0 {
                assert(profile_views(rows@)[0] == rows@[0]@);
                Some(rows[0].profile.clone())
            } else {
                None
            };
        }
        self.message = match failure {
            Some(message) => Some(message),
            None => if rows.len() == 0 {
                Some(
                    "Профилей пока нет. Добавьте профиль в каталог профилей демона.".to_owned(),
                )
            } else {
                None
            },
        };
        self.profiles = rows;
    }
}

impl Detail {
    fn describe(&mut self, view: DetailView)
        ensures
            final(self)@ == described(old(self)@, view@),
    {
        match view {
            DetailView::Unavailable { message } => {
                self.message = Some(message);
                self.empty = false;
                self.visible = false;
                self.log = "".to_owned();
            },
            DetailView::Space { rows, log_tail } => {
                self.message = None;
                self.rows = rows;
                self.visible = true;
                self.log = join_strings(&log_tail, "\n");
            },
        }
    }
}

impl Ui {
    fn disconnect(&mut self)
        requires
            old(self)@.flow.epoch < u64::MAX,
        ensures
            final(self)@ == disconnected(old(self)@),
    {
        self.flow.connected = false;
        self.flow.epoch = self.flow.epoch + 1;
        self.sidebar.spaces = Vec::new();
        assert(row_views(self.sidebar.spaces@) =~= seq![]);
    }

    fn take_spaces(&mut self, rows: Vec<SpaceRow>)
        requires
            old(self)@.flow.epoch < u64::MAX,
        ensures
            final(self)@ == listed_spaces(old(self)@, row_views(rows@)),
    {
        let listed = match &self.sidebar.pending_select {
            Some(id) => row_of(&rows, id.as_str()).is_some(),
            None => false,
        };
        self.flow.connected = true;
        self.sidebar.spaces = rows;
        if listed {
            let mut pending: Option<String> = None;
            std::mem::swap(&mut self.sidebar.pending_select, &mut pending);
            self.sidebar.selected = pending;
            self.sidebar.query = "".to_owned();
            self.sidebar.running_only = false;
            self.flow.epoch = self.flow.epoch + 1;
            self.detail.visible = false;
            self.detail.log = "".to_owned();
        }
    }

    pub fn render_spaces(&mut self, view: SpacesView)
        requires
            room(old(self)@.flow, 2),
        ensures
            final(self)@ == spaces_rendered(old(self)@, view@),
    {
        match view {
            SpacesView::Unavailable { message } => {
                self.disconnect();
                self.select_space(None);
                self.sidebar.message = Some(message);
                self.detail.message = Some(
                    "Спейсы недоступны. Ожидаем подключения к демону.".to_owned(),
                );
                self.detail.empty = false;
            },
            SpacesView::Spaces(rows) => {
                self.take_spaces(rows);
                self.filter_spaces();
            },
        }
    }

    pub fn render_detail(&mut self, view: DetailView)
        ensures
            final(self)@ == (UiView { detail: described(old(self)@.detail, view@), ..old(self)@ }),
    {
        self.detail.describe(view);
    }

    pub fn render_net(&mut self, net: Result<NetView, String>)
        ensures
            final(self)@ == (UiView { net: Some(net_facts(net)), ..old(self)@ }),
    {
        self.net = Some(net);
    }

    pub fn render_profiles(&mut self, view: ProfilesView)
        ensures
            final(self)@ == profiles_rendered(old(self)@, view@),
    {
        let (rows, failure) = match view {
            ProfilesView::Profiles(rows) => (rows, None),
            ProfilesView::Unavailable { message } => (Vec::new(), Some(message)),
        };
        assert(view@ is Err ==> profile_views(rows@) =~= seq![]);
        if let Some(d) = &mut self.dialog {
            d.take_profiles(&rows, &failure);
        }
        self.images.take_profiles(rows, failure);
    }
}

// ---------------------------------------------------------------------------------------------
// The end of a request
// ---------------------------------------------------------------------------------------------

pub open spec fn is_wrong_passphrase(reply: Result<Reply, String>) -> bool {
    reply matches Ok(Reply::Refusal { code, message }) && code@ == "wrong-passphrase"@
}

/// The words for the end of an operation.
pub open spec fn outcome_text(label: Seq<char>, reply: Result<Reply, String>) -> Seq<char> {
    match answer(reply) {
        Err(words) => words,
        Ok(_) => label + ": выполнено"@,
    }
}

/// The operation is over.
pub open spec fn ended(o: OperationView, words: Seq<char>, failed: bool) -> OperationView {
    OperationView {
        pending: None,
        status: words,
        summary: words,
        failed: o.failed || failed,
        progress: progress_with(o.progress, words),
        ..o
    }
}

/// The operation is over, and how it went is shown.
pub open spec fn finished(s: UiView, label: Seq<char>, reply: Result<Reply, String>) -> UiView {
    let words = outcome_text(label, reply);
    UiView {
        operation: ended(s.operation, words, answer(reply) is Err),
        dialog: with_status(s.dialog, words),
        ..s
    }
}

/// What is selected once the spaces are listed anew.
pub open spec fn awaited(s: SidebarView, kind: KindView) -> SidebarView {
    match kind {
        KindView::Create { new_id, encrypted } => SidebarView {
            pending_select: Some(new_id),
            ..s
        },
        _ => s,
    }
}

pub open spec fn succeeded(s: UiView, kind: KindView) -> UiView {
    UiView {
        flow: invalidated(s.flow, s.sidebar.selected),
        sidebar: awaited(s.sidebar, kind),
        ..s
    }
}

pub open spec fn action_done(s: UiView, p: PendingView, reply: Result<Reply, String>) -> UiView {
    if answer(reply) is Ok {
        succeeded(finished(s, p.label, reply), p.kind)
    } else {
        finished(s, p.label, reply)
    }
}

/// What the user is asked at the end of an operation.
pub open spec fn prompt_after(p: PendingView, reply: Result<Reply, String>) -> Option<PromptView> {
    match p.kind {
        KindView::Passphrase { op, space } => if is_wrong_passphrase(reply) {
            Some(PromptView::Passphrase { op, space, label: p.label })
        } else {
            None
        },
        KindView::Create { new_id, encrypted } => if answer(reply) is Ok {
            Some(PromptView::StartCreated { id: new_id, encrypted })
        } else {
            None
        },
        KindView::Other => None,
    }
}

pub open spec fn list_done(s: UiView, reply: Result<Reply, String>) -> UiView {
    let flow = FlowView { latest_list: 0, list_again: false, ..s.flow };
    if s.flow.list_again {
        UiView { flow: list_refreshed(flow), ..s }
    } else {
        spaces_rendered(UiView { flow, ..s }, spaces_of(answer(reply)))
    }
}

pub open spec fn detail_done(s: UiView, reply: Result<Reply, String>) -> UiView {
    let flow = FlowView { latest_detail: 0, detail_request: None, ..s.flow };
    if !s.flow.connected {
        UiView { flow, ..s }
    } else if is_current(s.flow, s.sidebar.selected) {
        UiView { flow, detail: described(s.detail, detail_of(answer(reply))), ..s }
    } else {
        UiView { flow: selected_refreshed(flow, s.sidebar.selected), ..s }
    }
}

pub open spec fn net_done(s: UiView, reply: Result<Reply, String>) -> UiView {
    UiView {
        flow: FlowView { latest_net: 0, ..s.flow },
        net: Some(net_of(answer(reply))),
        ..s
    }
}

pub open spec fn profiles_done(s: UiView, reply: Result<Reply, String>) -> UiView {
    let flow = FlowView { latest_profiles: 0, profiles_again: false, ..s.flow };
    if s.flow.profiles_again {
        UiView { flow: profiles_requested(flow), ..s }
    } else {
        profiles_rendered(UiView { flow, ..s }, profiles_of(answer(reply)))
    }
}

/// A request is over. An answer that nobody waits for changes nothing.
pub open spec fn done(s: UiView, id: nat, reply: Result<Reply, String>) -> UiView {
    if id == 0 || s.flow.closed {
        s
    } else if id == s.flow.latest_list {
        list_done(s, reply)
    } else if id == s.flow.latest_detail {
        detail_done(s, reply)
    } else if id == s.flow.latest_net {
        net_done(s, reply)
    } else if id == s.flow.latest_profiles {
        profiles_done(s, reply)
    } else if s.operation.pending matches Some(p) && p.id == id {
        action_done(s, s.operation.pending->0, reply)
    } else {
        s
    }
}

/// What the user is asked when a request is over.
pub open spec fn asked(s: UiView, id: nat, reply: Result<Reply, String>) -> Option<PromptView> {
    if id == 0 || s.flow.closed || id == s.flow.latest_list || id == s.flow.latest_detail || id
        == s.flow.latest_net || id == s.flow.latest_profiles {
        None
    } else if s.operation.pending matches Some(p) && p.id == id {
        prompt_after(s.operation.pending->0, reply)
    } else {
        None
    }
}

fn outcome_words(label: &str, reply: &Result<Reply, String>) -> (r: String)
    ensures
        r@ == outcome_text(label@, *reply),
{
    match reply {
        Err(transport) => transport.clone(),
        Ok(Reply::Refusal { code, message }) => code.clone().concat(": ").concat(
            message.as_str(),
        ),
        Ok(Reply::Value(_)) => label.to_owned().concat(": выполнено"),
    }
}

fn prompt_for(action: PendingAction, reply: &Result<Reply, String>) -> (r: Option<Prompt>)
    ensures
        opt_prompt(r) == prompt_after(action@, *reply),
{
    match action.kind {
        PendingKind::Create { new_id, encrypted } => match reply {
            Ok(Reply::Value(_)) => Some(Prompt::StartCreated { id: new_id, encrypted }),
            _ => None,
        },
        PendingKind::Passphrase { op, space } => match reply {
            Ok(Reply::Refusal { code, .. }) => if str_equal(code.as_str(), "wrong-passphrase") {
                Some(Prompt::Passphrase { op, space, label: action.label })
            } else {
                None
            },
            _ => None,
        },
        PendingKind::Other => None,
    }
}

impl Operation {
    fn end(&mut self, words: &str, failed: bool)
        requires
            old(self)@.progress.len() <= PROGRESS_LINES,
        ensures
            final(self)@ == ended(old(self)@, words@, failed),
    {
        self.append_progress(words);
        self.pending = None;
        self.status = words.to_owned();
        self.summary = words.to_owned();
        if failed {
            self.failed = true;
        }
    }
}

impl Ui {
    fn finish_list(&mut self, reply: Result<Reply, String>)
        requires
            room(old(self)@.flow, 2),
        ensures
            final(self)@ == list_done(old(self)@, reply),
    {
        let again = self.flow.list_again;
        self.flow.latest_list = 0;
        self.flow.list_again = false;
        if again {
            self.flow.refresh_list();
        } else {
            self.render_spaces(spaces_view(reply));
        }
    }

    fn finish_detail(&mut self, reply: Result<Reply, String>)
        requires
            room(old(self)@.flow, 1),
        ensures
            final(self)@ == detail_done(old(self)@, reply),
    {
        let current = self.flow.detail_is_current(&self.sidebar.selected);
        self.flow.latest_detail = 0;
        self.flow.detail_request = None;
        if !self.flow.connected {
            return;
        }
        if current {
            self.render_detail(detail_view(reply));
        } else {
            self.flow.refresh_selected(&self.sidebar.selected);
        }
    }

    fn finish_net(&mut self, reply: Result<Reply, String>)
        ensures
            final(self)@ == net_done(old(self)@, reply),
    {
        self.flow.latest_net = 0;
        self.render_net(net_view(reply));
    }

    fn finish_profiles(&mut self, reply: Result<Reply, String>)
        requires
            room(old(self)@.flow, 1),
        ensures
            final(self)@ == profiles_done(old(self)@, reply),
    {
        let again = self.flow.profiles_again;
        self.flow.latest_profiles = 0;
        self.flow.profiles_again = false;
        if again {
            self.flow.request_profiles();
        } else {
            self.render_profiles(profiles_view(reply));
        }
    }

    fn finish(&mut self, label: &str, reply: &Result<Reply, String>)
        requires
            old(self)@.operation.progress.len() <= PROGRESS_LINES,
        ensures
            final(self)@ == finished(old(self)@, label@, *reply),
    {
        let words = outcome_words(label, reply);
        let failed = match reply {
            Ok(Reply::Value(_)) => false,
            _ => true,
        };
        self.operation.end(words.as_str(), failed);
        self.set_dialog_status(words.as_str());
    }

    fn succeed(&mut self, kind: &PendingKind)
        requires
            room(old(self)@.flow, 3),
        ensures
            final(self)@ == succeeded(old(self)@, kind@),
    {
        if let PendingKind::Create { new_id, .. } = kind {
            self.sidebar.pending_select = Some(new_id.clone());
        }
        self.flow.invalidate(&self.sidebar.selected);
    }

    fn finish_action(&mut self, action: PendingAction, reply: Result<Reply, String>) -> (r: Option<
        Prompt,
    >)
        requires
            room(old(self)@.flow, 3),
            old(self)@.operation.progress.len() <= PROGRESS_LINES,
        ensures
            final(self)@ == action_done(old(self)@, action@, reply),
            opt_prompt(r) == prompt_after(action@, reply),
    {
        self.finish(action.label.as_str(), &reply);
        if let Ok(Reply::Value(_)) = &reply {
            self.succeed(&action.kind);
        }
        prompt_for(action, &reply)
    }

    /// Takes the end of a request, and says what the user is to be asked.
    pub fn handle_done(&mut self, request_id: u64, reply: Result<Reply, String>) -> (r: Option<
        Prompt,
    >)
        requires
            is_sound(old(self)@),
            has_room(old(self)@),
        ensures
            final(self)@ == done(old(self)@, request_id as nat, reply),
            opt_prompt(r) == asked(old(self)@, request_id as nat, reply),
    {
        if request_id == 0 || self.flow.closed {
            return None;
        }
        if request_id == self.flow.latest_list {
            self.finish_list(reply);
            return None;
        }
        if request_id == self.flow.latest_detail {
            self.finish_detail(reply);
            return None;
        }
        if request_id == self.flow.latest_net {
            self.finish_net(reply);
            return None;
        }
        if request_id == self.flow.latest_profiles {
            self.finish_profiles(reply);
            return None;
        }
        let ours = match &self.operation.pending {
            Some(action) => action.id == request_id,
            None => false,
        };
        if !ours {
            return None;
        }
        let ghost start = self@;
        let mut taken: Option<PendingAction> = None;
        std::mem::swap(&mut self.operation.pending, &mut taken);
        match taken {
            Some(action) => {
                let ghost p = action@;
                assert(start.operation.pending == Some(p));
                assert(ended(self@.operation, outcome_text(p.label, reply), answer(reply) is Err)
                    == ended(start.operation, outcome_text(p.label, reply), answer(reply) is Err));
                self.finish_action(action, reply)
            },
            None => None,
        }
    }
}

// ---------------------------------------------------------------------------------------------
// What the user does
// ---------------------------------------------------------------------------------------------

pub open spec fn shown_page(s: UiView, page: Page) -> UiView {
    UiView {
        page,
        flow: match page {
            Page::Spaces => s.flow,
            Page::Images => profiles_requested(s.flow),
            Page::Network => net_refreshed(s.flow),
        },
        ..s
    }
}

/// The profile of the selected space, else the one that is selected.
pub open spec fn build_profile(s: UiView) -> Option<Seq<char>> {
    match row_at(s.sidebar.spaces, s.sidebar.selected) {
        Some(row) => Some(row.profile),
        None => s.images.selected,
    }
}

/// The images are shown, with the profile of the selected space.
pub open spec fn build_shown(s: UiView) -> UiView {
    UiView {
        flow: profiles_requested(s.flow),
        page: Page::Images,
        images: ImagesView { selected: build_profile(s), ..s.images },
        ..s
    }
}

/// An operation on a space, unless it wants a passphrase first.
pub open spec fn operated(s: UiView, op: Seq<char>, id: Seq<char>) -> UiView {
    if passphrase_needed(op, s.sidebar.spaces, id) {
        s
    } else {
        action_sent(
            s,
            RequestView::Operate { op, space: id, passphrase: None },
            op + " "@ + id,
            KindView::Other,
        )
    }
}

/// The passphrase that an operation wants.
pub open spec fn wanted(s: UiView, op: Seq<char>, id: Seq<char>) -> Option<PromptView> {
    if passphrase_needed(op, s.sidebar.spaces, id) {
        Some(PromptView::Passphrase { op, space: id, label: op + " "@ + id })
    } else {
        None
    }
}

pub open spec fn passphrase_submitted(
    s: UiView,
    passphrase: Seq<char>,
    id: Seq<char>,
    op: Seq<char>,
    label: Seq<char>,
) -> UiView {
    if passphrase.len() == 0 {
        s
    } else {
        action_sent(
            s,
            RequestView::Operate { op, space: id, passphrase: Some(passphrase) },
            label,
            KindView::Passphrase { op, space: id },
        )
    }
}

pub open spec fn build_started(s: UiView, profile: Seq<char>) -> UiView {
    if trim(profile).len() == 0 {
        s
    } else {
        action_sent(
            s,
            RequestView::Build { profile: trim(profile) },
            "Сборка образа "@ + trim(profile),
            KindView::Other,
        )
    }
}

/// Whether the form can be sent.
pub open spec fn can_submit(s: UiView, input: InputView) -> bool {
    &&& s.flow.connected
    &&& s.operation.pending is None
    &&& s.dialog is Some
    &&& checked(input, dialog_profile(s.dialog->0), s.sidebar.spaces).can_create
}

/// The form is sent, and closed.
pub open spec fn create_submitted(s: UiView, input: InputView) -> UiView {
    if can_submit(s, input) {
        UiView {
            dialog: None,
            ..action_sent(
                s,
                creation(input, dialog_profile(s.dialog->0)->0.profile),
                "создание спейса "@ + input.id,
                KindView::Create { new_id: input.id, encrypted: input.encrypt },
            )
        }
    } else {
        s
    }
}

pub open spec fn empty_dialog() -> DialogState {
    DialogState { profiles: seq![], index: 0, status: None, failure: None }
}

pub open spec fn dialog_opened(s: UiView) -> UiView {
    if s.dialog is Some {
        s
    } else {
        UiView { flow: profiles_requested(s.flow), dialog: Some(empty_dialog()), ..s }
    }
}

/// Which buttons can be pressed, and which of those that exclude one another are shown.
pub struct Buttons {
    pub start_shown: bool,
    pub stop_shown: bool,
    pub open_window_shown: bool,
    pub start: bool,
    pub stop: bool,
    pub open_window: bool,
    pub build: bool,
    pub update_image: bool,
    pub reset_system: bool,
    pub reset_all: bool,
    pub destroy: bool,
    pub create: bool,
    pub profile_build: bool,
    pub form_create: bool,
    pub form_build: bool,
}

pub open spec fn is_idle(s: UiView) -> bool {
    s.operation.pending is None && s.flow.connected
}

pub open spec fn selected_state(s: UiView) -> Option<Seq<char>> {
    match row_at(s.sidebar.spaces, s.sidebar.selected) {
        Some(row) => Some(row.state),
        None => None,
    }
}

/// The selected profile can be built.
pub open spec fn can_build_profile(s: ImagesView) -> bool {
    s.selected matches Some(name) && exists|i: int|
        0 <= i < s.profiles.len() && (#[trigger] s.profiles[i]).profile == name
            && s.profiles[i].manifest_ok
}

pub open spec fn buttons_of(s: UiView, can_create: bool, can_build: bool) -> Buttons {
    let state = selected_state(s);
    let lives = state == Some("running"@) || state == Some("unresponsive"@);
    Buttons {
        start_shown: !lives,
        stop_shown: lives,
        open_window_shown: state == Some("running"@),
        start: is_idle(s) && offered(Action::Start, state),
        stop: is_idle(s) && offered(Action::Stop, state),
        open_window: is_idle(s) && offered(Action::OpenWindow, state),
        build: is_idle(s) && offered(Action::Build, state),
        update_image: is_idle(s) && offered(Action::UpdateImage, state),
        reset_system: is_idle(s) && offered(Action::ResetSystem, state),
        reset_all: is_idle(s) && offered(Action::ResetAll, state),
        destroy: is_idle(s) && offered(Action::Destroy, state),
        create: is_idle(s),
        profile_build: is_idle(s) && can_build_profile(s.images),
        form_create: is_idle(s) && s.dialog is Some && can_create,
        form_build: is_idle(s) && s.dialog is Some && can_build,
    }
}

impl Images {
    fn can_build(&self) -> (r: bool)
        ensures
            r == can_build_profile(self@),
    {
        let name = match &self.selected {
            Some(name) => name,
            None => {
                return false;
            },
        };
        let ghost all = self@.profiles;
        for i in 0..self.profiles.len()
            invariant
                all == profile_views(self.profiles@),
                opt_text(self.selected) == Some(name@),
                forall|j: int|
                    0 <= j < i ==> !((#[trigger] all[j]).profile == name@ && all[j].manifest_ok),
        {
            assert(all[i as int] == self.profiles@[i as int]@);
            if self.profiles[i].manifest_ok && str_equal(
                self.profiles[i].profile.as_str(),
                name.as_str(),
            ) {
                return true;
            }
        }
        false
    }
}

impl Ui {
    pub fn show_page(&mut self, page: Page)
        requires
            room(old(self)@.flow, 1),
        ensures
            final(self)@ == shown_page(old(self)@, page),
    {
        self.page = page;
        match page {
            Page::Spaces => {},
            Page::Images => {
                self.flow.request_profiles();
            },
            Page::Network => {
                self.flow.refresh_net();
            },
        }
    }

    fn profile_to_build(&self) -> (r: Option<String>)
        ensures
            opt_text(r) == build_profile(self@),
    {
        if let Some(id) = &self.sidebar.selected {
            if let Some(profile) = profile_for_build(&self.sidebar.spaces, id.as_str()) {
                return Some(profile);
            }
        }
        match &self.images.selected {
            Some(name) => Some(name.clone()),
            None => None,
        }
    }

    pub fn show_build(&mut self)
        requires
            room(old(self)@.flow, 1),
        ensures
            final(self)@ == build_shown(old(self)@),
    {
        let profile = self.profile_to_build();
        self.page = Page::Images;
        self.images.selected = profile;
        self.flow.request_profiles();
    }

    pub fn select_profile(&mut self, name: Option<String>)
        ensures
            final(self)@ == (UiView {
                images: ImagesView { selected: opt_text(name), ..old(self)@.images },
                ..old(self)@
            }),
    {
        self.images.selected = name;
    }

    /// Begins an operation on a space, or says that it wants a passphrase.
    pub fn operate(&mut self, op: &str, id: &str) -> (r: Option<Prompt>)
        requires
            room(old(self)@.flow, 1),
        ensures
            final(self)@ == operated(old(self)@, op@, id@),
            opt_prompt(r) == wanted(old(self)@, op@, id@),
    {
        let label = op.to_owned().concat(" ").concat(id);
        if needs_passphrase(op, &self.sidebar.spaces, id) {
            return Some(
                Prompt::Passphrase { op: op.to_owned(), space: id.to_owned(), label },
            );
        }
        self.send_action(
            Request::Operate { op: op.to_owned(), space: id.to_owned(), passphrase: None },
            label,
            PendingKind::Other,
        );
        None
    }

    /// Begins an operation with the passphrase that was typed; an empty one begins nothing.
    pub fn submit_passphrase(&mut self, passphrase: &str, id: &str, op: &str, label: &str) -> (r:
        bool)
        requires
            room(old(self)@.flow, 1),
        ensures
            final(self)@ == passphrase_submitted(old(self)@, passphrase@, id@, op@, label@),
            r == (passphrase@.len() > 0),
    {
        if chars_of(passphrase).len() == 0 {
            return false;
        }
        self.send_action(
            Request::Operate {
                op: op.to_owned(),
                space: id.to_owned(),
                passphrase: Some(passphrase.to_owned()),
            },
            label.to_owned(),
            PendingKind::Passphrase { op: op.to_owned(), space: id.to_owned() },
        );
        true
    }

    /// Starts a space that has just been created, or says that it wants a passphrase.
    pub fn start_created(&mut self, id: &str, encrypted: bool) -> (r: Option<Prompt>)
        requires
            room(old(self)@.flow, 1),
        ensures
            final(self)@ == (if encrypted {
                old(self)@
            } else {
                action_sent(
                    old(self)@,
                    RequestView::Operate { op: "start"@, space: id@, passphrase: None },
                    "Запуск "@ + id@,
                    KindView::Other,
                )
            }),
            opt_prompt(r) == (if encrypted {
                Some(
                    PromptView::Passphrase {
                        op: "start"@,
                        space: id@,
                        label: "Запуск "@ + id@,
                    },
                )
            } else {
                None
            }),
    {
        let label = "Запуск ".to_owned().concat(id);
        if encrypted {
            return Some(
                Prompt::Passphrase { op: "start".to_owned(), space: id.to_owned(), label },
            );
        }
        self.send_action(
            Request::Operate { op: "start".to_owned(), space: id.to_owned(), passphrase: None },
            label,
            PendingKind::Other,
        );
        None
    }

    /// Begins to build the image of a profile.
    pub fn start_build(&mut self, profile: &str)
        requires
            room(old(self)@.flow, 1),
        ensures
            final(self)@ == build_started(old(self)@, profile@),
    {
        if let Some(profile) = normalize_profile_input(profile) {
            let label = "Сборка образа ".to_owned().concat(profile.as_str());
            self.send_action(Request::Build { profile }, label, PendingKind::Other);
        }
    }

    pub fn open_dialog(&mut self)
        requires
            room(old(self)@.flow, 1),
        ensures
            final(self)@ == dialog_opened(old(self)@),
    {
        if self.dialog.is_some() {
            return;
        }
        let d = Dialog { profiles: Vec::new(), index: 0, status: None, failure: None };
        assert(profile_views(d.profiles@) =~= seq![]);
        self.dialog = Some(d);
        self.flow.request_profiles();
    }

    pub fn close_dialog(&mut self)
        ensures
            final(self)@ == (UiView { dialog: None, ..old(self)@ }),
    {
        self.dialog = None;
    }

    /// Selects a profile in the form.
    pub fn choose_profile(&mut self, index: usize)
        ensures
            final(self)@ == (UiView {
                dialog: match old(self)@.dialog {
                    Some(d) => Some(DialogState { index: index as nat, failure: None, ..d }),
                    None => None,
                },
                ..old(self)@
            }),
    {
        if let Some(d) = &mut self.dialog {
            d.index = index;
            d.failure = None;
        }
    }

    /// Takes note that a field of the form was changed: what is wrong with the form is said anew.
    pub fn edit_form(&mut self)
        ensures
            final(self)@ == (UiView {
                dialog: match old(self)@.dialog {
                    Some(d) => Some(DialogState { failure: None, ..d }),
                    None => None,
                },
                ..old(self)@
            }),
    {
        if let Some(d) = &mut self.dialog {
            d.failure = None;
        }
    }

    /// Looks at the fields of the form, while it is open.
    pub fn check_form(&self, input: &FormInput) -> (r: Option<FormCheck>)
        ensures
            match (r, self@.dialog) {
                (Some(c), Some(d)) => c@ == checked(input@, dialog_profile(d), self@.sidebar.spaces),
                (None, None) => true,
                _ => false,
            },
    {
        match &self.dialog {
            Some(d) => Some(revalidate(input, d.selected_profile(), &self.sidebar.spaces)),
            None => None,
        }
    }

    /// Sends the form, and closes it; nothing happens while it cannot be sent.
    pub fn submit_create(&mut self, input: &FormInput) -> (r: bool)
        requires
            room(old(self)@.flow, 1),
        ensures
            final(self)@ == create_submitted(old(self)@, input@),
            r == can_submit(old(self)@, input@),
    {
        if !self.flow.connected || self.operation.pending.is_some() {
            return false;
        }
        let profile = match &self.dialog {
            Some(d) => {
                let selected = d.selected_profile();
                let check = revalidate(input, selected, &self.sidebar.spaces);
                if !check.can_create {
                    return false;
                }
                match selected {
                    Some(row) => row.profile.clone(),
                    None => {
                        return false;
                    },
                }
            },
            None => {
                return false;
            },
        };
        let request = creation_request(input, profile.as_str());
        self.send_action(
            request,
            "создание спейса ".to_owned().concat(input.id.as_str()),
            PendingKind::Create { new_id: input.id.clone(), encrypted: input.encrypt },
        );
        self.dialog = None;
        true
    }

    /// The window is closed, and the form with it.
    pub fn close(&mut self)
        ensures
            final(self)@ == (UiView {
                flow: FlowView { closed: true, ..old(self)@.flow },
                dialog: None,
                ..old(self)@
            }),
    {
        self.flow.closed = true;
        self.dialog = None;
    }

    /// Which buttons can be pressed. `can_create` and `can_build` are what the form says.
    pub fn sync_action_sensitivity(&self, can_create: bool, can_build: bool) -> (r: Buttons)
        ensures
            r == buttons_of(self@, can_create, can_build),
    {
        let idle = self.operation.pending.is_none() && self.flow.connected;
        let state: Option<&str> = match &self.sidebar.selected {
            Some(id) => match row_of(&self.sidebar.spaces, id.as_str()) {
                Some(row) => Some(row.state.as_str()),
                None => None,
            },
            None => None,
        };
        assert(opt_str_view(state) == selected_state(self@));
        let lives = action_enabled(Action::Stop, state);
        Buttons {
            start_shown: !lives,
            stop_shown: lives,
            open_window_shown: action_enabled(Action::OpenWindow, state),
            start: idle && action_enabled(Action::Start, state),
            stop: idle && lives,
            open_window: idle && action_enabled(Action::OpenWindow, state),
            build: idle && action_enabled(Action::Build, state),
            update_image: idle && action_enabled(Action::UpdateImage, state),
            reset_system: idle && action_enabled(Action::ResetSystem, state),
            reset_all: idle && action_enabled(Action::ResetAll, state),
            destroy: idle && action_enabled(Action::Destroy, state),
            create: idle,
            profile_build: idle && self.images.can_build(),
            form_create: idle && self.dialog.is_some() && can_create,
            form_build: idle && self.dialog.is_some() && can_build,
        }
    }
}

} // verus!
