//! What holds of the manager's window whatever happens.
use crate::daemon::ops::shared::{code_text, ErrorCode};
use crate::manager::flow::{
    detail_refreshed, invalidated, is_current, list_invalidated, list_refreshed, net_refreshed,
    profiles_requested, selected_refreshed, FlowView,
};
use crate::manager::form::InputView;
use crate::manager::request::RequestView;
use crate::manager::rules::{find_row, passphrase_needed};
use crate::manager::ui::{
    action_done, action_sent, apart, asked, build_shown, build_started, buttons_of, create_submitted,
    dialog_opened, disconnected, done, filtered, finished, flights, fresh, is_idle, is_sound,
    is_sound_with, is_wrong_passphrase, listed_spaces, operated, passes, passphrase_submitted,
    polled, progressed, reselected, row_at, shown_ids, shown_page, space_selected,
    spaces_rendered, target, visible, wanted, DialogState, KindView, OperationView, Page, PendingView,
    PromptView, SidebarView, UiView,
};
use crate::manager::view::{answer, spaces_of, Reply, SpaceRowView};
use vstd::prelude::*;

verus! {

/// What can happen to the window.
pub enum Step {
    Poll,
    Taken,
    Show(Page),
    ShowBuild,
    Select(Option<Seq<char>>),
    Filter(Seq<char>, bool),
    Operate(Seq<char>, Seq<char>),
    Passphrase(Seq<char>, Seq<char>, Seq<char>, Seq<char>),
    Build(Seq<char>),
    OpenForm,
    CloseForm,
    EditForm,
    ChooseProfile(nat),
    Submit(InputView),
    Progress(nat, Seq<char>),
    Done(nat, Result<Reply, String>),
    Close,
}

pub open spec fn stepped(s: UiView, step: Step) -> UiView {
    match step {
        Step::Poll => polled(s),
        Step::Taken => UiView { flow: FlowView { outbox: seq![], ..s.flow }, ..s },
        Step::Show(page) => shown_page(s, page),
        Step::ShowBuild => build_shown(s),
        Step::Select(id) => space_selected(s, id),
        Step::Filter(query, running_only) => filtered(
            UiView { sidebar: SidebarView { query, running_only, ..s.sidebar }, ..s },
        ),
        Step::Operate(op, id) => operated(s, op, id),
        Step::Passphrase(passphrase, id, op, label) => passphrase_submitted(
            s,
            passphrase,
            id,
            op,
            label,
        ),
        Step::Build(profile) => build_started(s, profile),
        Step::OpenForm => dialog_opened(s),
        Step::CloseForm => UiView { dialog: None, ..s },
        Step::EditForm => UiView {
            dialog: match s.dialog {
                Some(d) => Some(DialogState { failure: None, ..d }),
                None => None,
            },
            ..s
        },
        Step::ChooseProfile(index) => UiView {
            dialog: match s.dialog {
                Some(d) => Some(DialogState { index, failure: None, ..d }),
                None => None,
            },
            ..s
        },
        Step::Submit(input) => create_submitted(s, input),
        Step::Progress(id, text) => progressed(s, id, text),
        Step::Done(id, reply) => done(s, id, reply),
        Step::Close => UiView {
            flow: FlowView { closed: true, ..s.flow },
            dialog: None,
            ..s
        },
    }
}

/// The window after all that has happened.
pub open spec fn after(steps: Seq<Step>) -> UiView
    decreases steps.len(),
{
    if steps.len() == 0 {
        fresh()
    } else {
        stepped(after(steps.drop_last()), steps.last())
    }
}

proof fn lemma_reads_sound(f: FlowView, o: OperationView, space: Seq<char>)
    requires
        is_sound_with(f, o),
    ensures
        is_sound_with(list_refreshed(f), o),
        is_sound_with(net_refreshed(f), o),
        is_sound_with(profiles_requested(f), o),
        is_sound_with(detail_refreshed(f, space), o),
{
}

proof fn lemma_selected_sound(f: FlowView, o: OperationView, selected: Option<Seq<char>>)
    requires
        is_sound_with(f, o),
    ensures
        is_sound_with(selected_refreshed(f, selected), o),
{
    if let Some(id) = selected {
        lemma_reads_sound(f, o, id);
    }
}

proof fn lemma_invalidated_sound(f: FlowView, o: OperationView, selected: Option<Seq<char>>)
    requires
        is_sound_with(f, o),
    ensures
        is_sound_with(invalidated(f, selected), o),
{
    let a = FlowView { epoch: f.epoch + 1, ..f };
    lemma_reads_sound(a, o, seq![]);
    let b = list_invalidated(a);
    assert(is_sound_with(b, o));
    lemma_selected_sound(b, o, selected);
    lemma_reads_sound(selected_refreshed(b, selected), o, seq![]);
}

proof fn lemma_select_sound(s: UiView, id: Option<Seq<char>>)
    requires
        is_sound(s),
    ensures
        is_sound(space_selected(s, id)),
{
    let t = reselected(s, id);
    assert(is_sound(t));
    if let Some(row) = row_at(s.sidebar.spaces, id) {
        lemma_reads_sound(t.flow, t.operation, row.id);
    }
}

proof fn lemma_filter_sound(s: UiView)
    requires
        is_sound(s),
    ensures
        is_sound(filtered(s)),
{
    lemma_select_sound(s, target(shown_ids(s.sidebar), s.sidebar.selected));
}

proof fn lemma_rendered_sound(s: UiView, view: Result<Seq<SpaceRowView>, Seq<char>>)
    requires
        is_sound(s),
    ensures
        is_sound(spaces_rendered(s, view)),
{
    match view {
        Err(message) => {
            lemma_select_sound(disconnected(s), None);
        },
        Ok(rows) => {
            lemma_filter_sound(listed_spaces(s, rows));
        },
    }
}

proof fn lemma_action_done_sound(s: UiView, p: PendingView, reply: Result<Reply, String>)
    requires
        is_sound(s),
    ensures
        is_sound(action_done(s, p, reply)),
{
    let f = finished(s, p.label, reply);
    assert(is_sound(f));
    lemma_invalidated_sound(f.flow, f.operation, f.sidebar.selected);
}

proof fn lemma_done_sound(s: UiView, id: nat, reply: Result<Reply, String>)
    requires
        is_sound(s),
    ensures
        is_sound(done(s, id, reply)),
{
    if id == s.flow.latest_list {
        let flow = FlowView { latest_list: 0, list_again: false, ..s.flow };
        lemma_reads_sound(flow, s.operation, seq![]);
        lemma_rendered_sound(UiView { flow, ..s }, spaces_of(answer(reply)));
    } else if id == s.flow.latest_detail {
        let flow = FlowView { latest_detail: 0, detail_request: None, ..s.flow };
        lemma_selected_sound(flow, s.operation, s.sidebar.selected);
    } else if id == s.flow.latest_net {
    } else if id == s.flow.latest_profiles {
        let flow = FlowView { latest_profiles: 0, profiles_again: false, ..s.flow };
        lemma_reads_sound(flow, s.operation, seq![]);
    } else if let Some(p) = s.operation.pending {
        lemma_action_done_sound(s, p, reply);
    }
}

proof fn lemma_polled_sound(s: UiView)
    requires
        is_sound(s),
    ensures
        is_sound(polled(s)),
{
    let o = s.operation;
    lemma_reads_sound(s.flow, o, seq![]);
    let listed = list_refreshed(s.flow);
    lemma_reads_sound(listed, o, seq![]);
    lemma_selected_sound(listed, o, s.sidebar.selected);
    lemma_reads_sound(net_refreshed(listed), o, seq![]);
    lemma_reads_sound(profiles_requested(listed), o, seq![]);
    lemma_reads_sound(selected_refreshed(listed, s.sidebar.selected), o, seq![]);
}

/// Each number that is waited for belongs to one request that was sent, and the progress is
/// bounded: every step keeps that.
pub proof fn soundness_is_kept(s: UiView, step: Step)
    requires
        is_sound(s),
    ensures
        is_sound(stepped(s, step)),
{
    lemma_reads_sound(s.flow, s.operation, seq![]);
    match step {
        Step::Poll => {
            lemma_polled_sound(s);
        },
        Step::Select(id) => {
            lemma_select_sound(s, id);
        },
        Step::Filter(query, running_only) => {
            lemma_filter_sound(
                UiView { sidebar: SidebarView { query, running_only, ..s.sidebar }, ..s },
            );
        },
        Step::Done(id, reply) => {
            lemma_done_sound(s, id, reply);
        },
        _ => {},
    }
}

/// Whatever has happened, each number that is waited for belongs to one request, and the progress
/// is bounded.
pub proof fn the_window_is_always_sound(steps: Seq<Step>)
    ensures
        is_sound(after(steps)),
    decreases steps.len(),
{
    if steps.len() > 0 {
        the_window_is_always_sound(steps.drop_last());
        soundness_is_kept(after(steps.drop_last()), steps.last());
    }
}

/// Reads do not pile up: while none is answered, looking again sends nothing more.
pub proof fn reads_do_not_pile_up(s: UiView)
    ensures
        polled(polled(s)) == polled(s),
        polled(s).flow.outbox.len() <= s.flow.outbox.len() + 3,
{
}

/// A running operation does not keep the reads from going out, and no second operation begins
/// beside it.
pub proof fn one_operation_at_a_time(s: UiView, r: RequestView, label: Seq<char>, kind: KindView)
    requires
        s.operation.pending is Some,
    ensures
        action_sent(s, r, label, kind) == s,
        !s.flow.closed && s.flow.latest_list == 0 ==> polled(s).flow.outbox.len()
            > s.flow.outbox.len(),
        !is_idle(s),
{
    if !s.flow.closed && s.flow.latest_list == 0 {
        let listed = list_refreshed(s.flow);
        assert(listed.outbox.len() == s.flow.outbox.len() + 1);
        assert(polled(s).flow.outbox.len() >= listed.outbox.len());
    }
}

/// News and answers that nobody waits for change nothing.
pub proof fn strangers_are_ignored(
    s: UiView,
    id: nat,
    text: Seq<char>,
    reply: Result<Reply, String>,
)
    requires
        !flights(s).contains(id),
    ensures
        done(s, id, reply) == s,
        asked(s, id, reply) is None,
        progressed(s, id, text) == s,
{
    assert forall|i: int| 0 <= i < 5 implies #[trigger] flights(s)[i] != id by {}
    assert(flights(s)[0] != id && flights(s)[1] != id && flights(s)[2] != id && flights(s)[3]
        != id && flights(s)[4] != id);
}

/// A description of another space, or for an earlier selection, is not shown.
pub proof fn a_stale_description_is_not_shown(s: UiView, reply: Result<Reply, String>)
    requires
        is_sound(s),
        s.flow.latest_detail != 0,
        !is_current(s.flow, s.sidebar.selected) || !s.flow.connected,
    ensures
        done(s, s.flow.latest_detail, reply).detail == s.detail,
        done(s, s.flow.latest_detail, reply).sidebar == s.sidebar,
{
    assert(apart(s.flow.latest_list, s.flow.latest_detail));
}

/// An operation that opens the volumes of an encrypted space does not begin without a passphrase,
/// and the passphrase is asked for.
pub proof fn an_encrypted_space_wants_its_passphrase(s: UiView, op: Seq<char>, id: Seq<char>)
    requires
        passphrase_needed(op, s.sidebar.spaces, id),
    ensures
        operated(s, op, id) == s,
        wanted(s, op, id) == Some(
            PromptView::Passphrase { op, space: id, label: op + " "@ + id },
        ),
        forall|label: Seq<char>| #[trigger] passphrase_submitted(s, ""@, id, op, label) == s,
{
    reveal_strlit("");
}

/// A wrong passphrase is asked for again, for the same operation; nothing is sent by itself.
pub proof fn a_wrong_passphrase_is_asked_for_again(
    s: UiView,
    op: Seq<char>,
    space: Seq<char>,
    reply: Result<Reply, String>,
)
    requires
        is_sound(s),
        !s.flow.closed,
        s.operation.pending matches Some(p) && p.kind == (KindView::Passphrase { op, space }),
        is_wrong_passphrase(reply),
    ensures
        asked(s, s.operation.pending->0.id, reply) == Some(
            PromptView::Passphrase { op, space, label: s.operation.pending->0.label },
        ),
        done(s, s.operation.pending->0.id, reply).flow == s.flow,
        done(s, s.operation.pending->0.id, reply).operation.pending is None,
{
}

/// The manager knows a wrong passphrase by the name that the daemon gives it, and takes no other
/// refusal for one.
pub proof fn a_wrong_passphrase_is_recognised(code: ErrorCode, code_on_wire: String, message: String)
    requires
        code_on_wire@ == code_text(code),
    ensures
        is_wrong_passphrase(Ok(Reply::Refusal { code: code_on_wire, message })) <==> code
            == ErrorCode::WrongPassphrase,
{
    reveal_strlit("bad-request");
    reveal_strlit("space-exists");
    reveal_strlit("space-not-found");
    reveal_strlit("profile-not-found");
    reveal_strlit("template-not-found");
    reveal_strlit("space-running");
    reveal_strlit("space-stopped");
    reveal_strlit("no-bridge");
    reveal_strlit("wrong-passphrase");
    reveal_strlit("agent-timeout");
    reveal_strlit("internal");
    let wrong = "wrong-passphrase"@;
    assert(wrong.len() == 16 && wrong[0] == 'w');
    assert("bad-request"@[0] != 'w' && "space-exists"@[0] != 'w' && "space-not-found"@[0] != 'w');
    assert("profile-not-found"@[0] != 'w' && "template-not-found"@[0] != 'w');
    assert("space-running"@[0] != 'w' && "space-stopped"@[0] != 'w' && "no-bridge"@[0] != 'w');
    assert("agent-timeout"@[0] != 'w' && "internal"@[0] != 'w');
}

/// A list that still shows the selected space leaves it selected, leaves what is shown of it in
/// place and the page as it is.
pub proof fn a_refresh_keeps_the_selection(s: UiView, rows: Seq<SpaceRowView>)
    requires
        s.sidebar.pending_select is None,
        s.sidebar.selected is Some,
        visible(rows, s.sidebar.query, s.sidebar.running_only).contains(s.sidebar.selected->0),
    ensures
        spaces_rendered(s, Ok(rows)).sidebar.selected == s.sidebar.selected,
        spaces_rendered(s, Ok(rows)).page == s.page,
        spaces_rendered(s, Ok(rows)).detail.rows == s.detail.rows,
        spaces_rendered(s, Ok(rows)).flow.epoch == s.flow.epoch,
        s.detail.visible ==> spaces_rendered(s, Ok(rows)).detail.visible,
{
    lemma_visible_rows(
        rows,
        s.sidebar.query,
        s.sidebar.running_only,
        s.sidebar.selected->0,
    );
}

proof fn lemma_find_row(rows: Seq<SpaceRowView>, id: Seq<char>, i: int)
    requires
        0 <= i < rows.len(),
        rows[i].id == id,
    ensures
        find_row(rows, id) is Some,
        find_row(rows, id)->0.id == id,
    decreases rows.len(),
{
    if rows[0].id != id {
        assert(rows.skip(1)[i - 1] == rows[i]);
        lemma_find_row(rows.skip(1), id, i - 1);
    }
}

proof fn lemma_found_row(rows: Seq<SpaceRowView>, id: Seq<char>) -> (i: int)
    requires
        find_row(rows, id) is Some,
    ensures
        0 <= i < rows.len(),
        rows[i].id == id,
    decreases rows.len(),
{
    if rows[0].id == id {
        0
    } else {
        let i = lemma_found_row(rows.skip(1), id);
        assert(rows[i + 1] == rows.skip(1)[i]);
        i + 1
    }
}

/// What is visible is a space of the list that passes the filter.
proof fn lemma_visible_rows(
    rows: Seq<SpaceRowView>,
    query: Seq<char>,
    running_only: bool,
    id: Seq<char>,
)
    requires
        visible(rows, query, running_only).contains(id),
    ensures
        find_row(rows, id) is Some,
        find_row(rows, id)->0.id == id,
{
    let k = lemma_visible_row(rows, query, running_only, id);
    lemma_find_row(rows, id, k);
}

proof fn lemma_visible_row(
    rows: Seq<SpaceRowView>,
    query: Seq<char>,
    running_only: bool,
    id: Seq<char>,
) -> (k: int)
    requires
        visible(rows, query, running_only).contains(id),
    ensures
        0 <= k < rows.len(),
        rows[k].id == id,
        passes(rows[k], query, running_only),
    decreases rows.len(),
{
    let all = visible(rows, query, running_only);
    let front = visible(rows.drop_last(), query, running_only);
    let i = choose|i: int| 0 <= i < all.len() && all[i] == id;
    if i < front.len() {
        assert(front[i] == id);
        lemma_visible_row(rows.drop_last(), query, running_only, id)
    } else {
        rows.len() - 1
    }
}

proof fn lemma_passing_is_visible(
    rows: Seq<SpaceRowView>,
    query: Seq<char>,
    running_only: bool,
    k: int,
)
    requires
        0 <= k < rows.len(),
        passes(rows[k], query, running_only),
    ensures
        visible(rows, query, running_only).contains(rows[k].id),
    decreases rows.len(),
{
    let all = visible(rows, query, running_only);
    let front = visible(rows.drop_last(), query, running_only);
    if k == rows.len() - 1 {
        assert(all[all.len() - 1] == rows[k].id);
    } else {
        lemma_passing_is_visible(rows.drop_last(), query, running_only, k);
        let i = choose|i: int| 0 <= i < front.len() && front[i] == rows[k].id;
        assert(all[i] == rows[k].id);
    }
}

/// Exactly the spaces that pass the filter are shown.
pub proof fn the_filter_shows_what_passes(
    rows: Seq<SpaceRowView>,
    query: Seq<char>,
    running_only: bool,
    id: Seq<char>,
)
    ensures
        visible(rows, query, running_only).contains(id) <==> exists|k: int|
            0 <= k < rows.len() && (#[trigger] rows[k]).id == id && passes(
                rows[k],
                query,
                running_only,
            ),
{
    if visible(rows, query, running_only).contains(id) {
        let k = lemma_visible_row(rows, query, running_only, id);
        assert(rows[k].id == id);
    }
    if exists|k: int|
        0 <= k < rows.len() && (#[trigger] rows[k]).id == id && passes(
            rows[k],
            query,
            running_only,
        ) {
        let k = choose|k: int|
            0 <= k < rows.len() && (#[trigger] rows[k]).id == id && passes(
                rows[k],
                query,
                running_only,
            );
        lemma_passing_is_visible(rows, query, running_only, k);
    }
}

/// A space that has just been created is selected as soon as it is listed, whatever was selected
/// and whatever the filter was.
pub proof fn a_new_space_is_selected(s: UiView, rows: Seq<SpaceRowView>)
    requires
        row_at(rows, s.sidebar.pending_select) is Some,
    ensures
        spaces_rendered(s, Ok(rows)).sidebar.selected == s.sidebar.pending_select,
        spaces_rendered(s, Ok(rows)).sidebar.pending_select is None,
        !spaces_rendered(s, Ok(rows)).detail.visible,
{
    let id = s.sidebar.pending_select->0;
    let k = lemma_found_row(rows, id);
    reveal_strlit("");
    assert(passes(rows[k], ""@, false));
    lemma_passing_is_visible(rows, ""@, false, k);
    assert(visible(rows, ""@, false).contains(id));
}

/// Without the daemon nothing is selected, nothing is described and nothing can be pressed.
pub proof fn a_lost_daemon_offers_nothing(
    s: UiView,
    message: Seq<char>,
    can_create: bool,
    can_build: bool,
)
    ensures
        ({
            let t = spaces_rendered(s, Err(message));
            let b = buttons_of(t, can_create, can_build);
            &&& t.sidebar.selected is None
            &&& t.sidebar.spaces.len() == 0
            &&& t.sidebar.message == Some(message)
            &&& !t.detail.visible
            &&& !b.start && !b.stop && !b.open_window && !b.build && !b.update_image
                && !b.reset_system && !b.reset_all && !b.destroy && !b.create && !b.profile_build
                && !b.form_create && !b.form_build
        }),
{
}

/// While an operation runs, nothing that would begin another can be pressed.
pub proof fn a_running_operation_locks_the_buttons(s: UiView, can_create: bool, can_build: bool)
    requires
        s.operation.pending is Some,
    ensures
        ({
            let b = buttons_of(s, can_create, can_build);
            !b.start && !b.stop && !b.open_window && !b.build && !b.update_image
                && !b.reset_system && !b.reset_all && !b.destroy && !b.create && !b.profile_build
                && !b.form_create && !b.form_build
        }),
{
}

/// A closed window sends nothing more.
pub proof fn a_closed_window_is_silent(s: UiView, step: Step)
    requires
        s.flow.closed,
        step != Step::Taken,
    ensures
        stepped(s, step).flow.outbox == s.flow.outbox,
        stepped(s, step).flow.closed,
{
}

} // verus!
