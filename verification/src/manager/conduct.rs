//! What the manager's window does when it is asked for something, and what it says of it.
use crate::manager::flow::FlowView;
use crate::manager::form::{checked, creation, InputView};
use crate::manager::request::RequestView;
use crate::manager::rules::passphrase_needed;
use crate::manager::ui::{
    action_done, action_sent, build_shown, build_started, buttons_of, can_submit, create_submitted,
    described, detail_done, dialog_opened, dialog_profile, dialog_profiles, empty_words, list_done, net_done,
    nothing_shown, operated, passphrase_submitted, polled, profiled, profiles_done, progressed, prompt_after,
    row_at, selected_state, shown_ids, shown_page, space_selected, spaces_rendered, target,
    DetailState, DialogState, ImagesView, KindView, Page, PendingView, PromptView, UiView,
};
use crate::manager::view::{
    answer, detail_of, net_of, profiles_of, ProfileRowView, Reply, SpaceDetailRowView,
};
use crate::text::{join, lines, trim};
use vstd::prelude::*;

verus! {

/// Nothing is on its way, and the daemon is there.
pub open spec fn is_quiet(s: FlowView) -> bool {
    !s.closed && s.connected && s.latest_list == 0 && s.latest_detail == 0 && s.latest_net == 0
        && s.latest_profiles == 0
}

/// Requests that go out one after the other, under the numbers that follow.
pub open spec fn went_out(before: FlowView, after: FlowView, asked: Seq<RequestView>) -> bool {
    &&& after.next_id == before.next_id + asked.len()
    &&& after.outbox.len() == before.outbox.len() + asked.len()
    &&& forall|i: int|
        0 <= i < before.outbox.len() ==> #[trigger] after.outbox[i] == before.outbox[i]
    &&& forall|i: int|
        0 <= i < asked.len() ==> after.outbox[before.outbox.len() + i] == (
            (before.next_id + 1 + i) as nat,
            #[trigger] asked[i],
        )
}

// ---------------------------------------------------------------------------------------------
// Reading
// ---------------------------------------------------------------------------------------------

/// A look at the daemon asks for the list and for what the page shows: a description of the
/// selected space, the profiles, or the network. The form asks for the profiles as well.
pub proof fn a_page_asks_for_what_it_shows(s: UiView, id: Seq<char>)
    requires
        is_quiet(s.flow),
    ensures
        s.page == Page::Network && s.dialog is None ==> went_out(
            s.flow,
            polled(s).flow,
            seq![RequestView::List, RequestView::NetStatus],
        ),
        s.page == Page::Network && s.dialog is Some ==> went_out(
            s.flow,
            polled(s).flow,
            seq![RequestView::List, RequestView::NetStatus, RequestView::Profiles],
        ),
        s.page == Page::Images ==> went_out(
            s.flow,
            polled(s).flow,
            seq![RequestView::List, RequestView::Profiles],
        ),
        s.page == Page::Spaces && s.dialog is None && s.sidebar.selected == Some(id) ==> went_out(
            s.flow,
            polled(s).flow,
            seq![RequestView::List, RequestView::Describe { space: id }],
        ),
        s.page == Page::Spaces && s.dialog is None && s.sidebar.selected is None ==> went_out(
            s.flow,
            polled(s).flow,
            seq![RequestView::List],
        ),
        polled(s).flow.latest_list == s.flow.next_id + 1,
        s.page == Page::Network ==> polled(s).flow.latest_net == s.flow.next_id + 2,
        s.page == Page::Images ==> polled(s).flow.latest_profiles == s.flow.next_id + 2,
        s.page == Page::Spaces && s.sidebar.selected == Some(id) ==> {
            &&& polled(s).flow.latest_detail == s.flow.next_id + 2
            &&& polled(s).flow.detail_request == Some((id, s.flow.epoch))
        },
{
}

/// A page that is opened is shown, and asked for at once; the images are opened with the profile
/// of the selected space.
pub proof fn a_page_is_opened(s: UiView)
    requires
        is_quiet(s.flow),
    ensures
        shown_page(s, Page::Spaces) == (UiView { page: Page::Spaces, ..s }),
        shown_page(s, Page::Images).page == Page::Images,
        went_out(s.flow, shown_page(s, Page::Images).flow, seq![RequestView::Profiles]),
        shown_page(s, Page::Network).page == Page::Network,
        went_out(s.flow, shown_page(s, Page::Network).flow, seq![RequestView::NetStatus]),
        build_shown(s).page == Page::Images,
        went_out(s.flow, build_shown(s).flow, seq![RequestView::Profiles]),
        row_at(s.sidebar.spaces, s.sidebar.selected) matches Some(row)
            ==> build_shown(s).images.selected == Some(row.profile),
        row_at(s.sidebar.spaces, s.sidebar.selected) is None ==> build_shown(s).images.selected
            == s.images.selected,
        build_shown(s).images.profiles == s.images.profiles,
{
}

/// A space that is selected is asked for and shown under its head; while nothing of it has come,
/// nothing of another one is shown.
pub proof fn a_selected_space_is_asked_for(s: UiView, id: Seq<char>)
    requires
        is_quiet(s.flow),
        s.sidebar.selected != Some(id),
        row_at(s.sidebar.spaces, Some(id)) matches Some(row) && row.id == id,
    ensures
        ({
            let t = space_selected(s, Some(id));
            &&& t.sidebar.selected == Some(id)
            &&& t.detail.header && !t.detail.visible && !t.detail.empty
            &&& t.detail.message == Some("Загрузка сведений…"@)
            &&& t.detail.log == ""@
            &&& went_out(s.flow, t.flow, seq![RequestView::Describe { space: id }])
            &&& t.flow.detail_request == Some((id, (s.flow.epoch + 1) as nat))
            &&& t.flow.epoch == s.flow.epoch + 1
        }),
{
}

/// Where no space is selected, the window says why: there is none, or none passes the filter.
pub proof fn an_empty_window_says_why(s: UiView)
    ensures
        ({
            let t = nothing_shown(s);
            &&& !t.detail.header && !t.detail.visible && t.detail.empty
            &&& s.sidebar.spaces.len() == 0 ==> t.detail.message == Some(
                "Спейсов пока нет. Нажмите «Создать спейс»."@,
            )
            &&& s.sidebar.spaces.len() > 0 ==> t.detail.message == Some(
                "Нет спейсов, подходящих под фильтр."@,
            )
            &&& t.sidebar == s.sidebar && t.flow == s.flow
        }),
        empty_words(s.sidebar) is None <==> shown_ids(s.sidebar).len() > 0,
        shown_ids(s.sidebar).len() == 0 && s.sidebar.spaces.len() == 0 ==> empty_words(s.sidebar)
            == Some("Спейсов пока нет. Создайте первый."@),
        shown_ids(s.sidebar).len() == 0 && s.sidebar.spaces.len() > 0 ==> empty_words(s.sidebar)
            == Some("Ничего не найдено."@),
{
}

/// The selection stays where it is visible, else goes to the first space that is.
pub proof fn the_selection_stays_among_what_is_shown(
    shown: Seq<Seq<char>>,
    previous: Option<Seq<char>>,
)
    ensures
        target(shown, previous) is None <==> shown.len() == 0,
        target(shown, previous) matches Some(id) ==> shown.contains(id),
        previous is Some && shown.contains(previous->0) ==> target(shown, previous) == previous,
        shown.len() > 0 && (previous is None || !shown.contains(previous->0)) ==> target(
            shown,
            previous,
        ) == Some(shown[0]),
{
    if shown.len() > 0 {
        assert(shown.contains(shown[0]));
    }
    if previous is Some && shown.contains(previous->0) {
        assert(shown.len() > 0);
    }
}

// ---------------------------------------------------------------------------------------------
// Answers
// ---------------------------------------------------------------------------------------------

/// What an answer brings is shown where it was asked for, and nothing else changes but the request
/// that is no longer waited for.
pub proof fn an_answer_is_shown_where_it_was_asked_for(
    s: UiView,
    reply: Result<Reply, String>,
    rows: Seq<SpaceDetailRowView>,
    log: Seq<Seq<char>>,
)
    ensures
        net_done(s, reply).net == Some(net_of(answer(reply))),
        net_done(s, reply).flow.latest_net == 0,
        net_done(s, reply).sidebar == s.sidebar,
        list_done(s, reply).flow.latest_list == 0 || s.flow.list_again,
        s.flow.connected && s.flow.detail_request == Some((s.sidebar.selected->0, s.flow.epoch))
            && s.sidebar.selected is Some && detail_of(answer(reply)) == Ok::<
            (Seq<SpaceDetailRowView>, Seq<Seq<char>>),
            Seq<char>,
        >((rows, log)) ==> {
            let t = detail_done(s, reply);
            &&& t.detail.visible && t.detail.message is None
            &&& t.detail.rows == rows
            &&& t.detail.log == join(log, "\n"@)
            &&& t.flow.latest_detail == 0 && t.flow.detail_request is None
            &&& t.sidebar == s.sidebar
        },
{
}

/// A description that is not to be had leaves its reason, and nothing of an earlier one.
pub proof fn a_missing_description_is_explained(d: DetailState, message: Seq<char>)
    ensures
        described(d, Err(message)).message == Some(message),
        !described(d, Err(message)).visible,
        !described(d, Err(message)).empty,
        described(d, Err(message)).log == ""@,
{
}

/// A list that the daemon does not give leaves its reason in the place of the list, and says in the
/// place of the description that the daemon is waited for.
pub proof fn a_missing_list_is_explained(s: UiView, message: Seq<char>)
    ensures
        ({
            let t = spaces_rendered(s, Err(message));
            &&& !t.flow.connected
            &&& t.sidebar.message == Some(message)
            &&& t.detail.message == Some("Спейсы недоступны. Ожидаем подключения к демону."@)
            &&& !t.detail.empty
            &&& t.page == s.page && t.images == s.images && t.operation == s.operation
        }),
{
}

/// Profiles that come keep the selection where they can, and otherwise select the first; that there
/// are none, or that they are not to be had, is said.
pub proof fn profiles_are_shown(
    s: ImagesView,
    rows: Seq<ProfileRowView>,
    d: DialogState,
    message: Seq<char>,
)
    ensures
        profiled(s, rows, None).profiles == rows,
        profiled(s, rows, Some(message)).message == Some(message),
        rows.len() > 0 ==> profiled(s, rows, None).message is None,
        rows.len() == 0 ==> profiled(s, rows, None).message == Some(
            "Профилей пока нет. Добавьте профиль в каталог профилей демона."@,
        ),
        rows.len() > 0 && s.selected is None ==> profiled(s, rows, None).selected == Some(
            rows[0].profile,
        ),
        rows.len() == 0 ==> profiled(s, rows, None).selected is None,
        rows.len() > 0 && s.selected == Some(rows[0].profile) ==> profiled(s, rows, None).selected
            == s.selected,
        dialog_profiles(d, rows, None).profiles == rows,
        dialog_profiles(d, rows, None).failure is None,
        dialog_profiles(d, rows, Some(message)).failure == Some("Профили недоступны: "@ + message),
        dialog_profiles(d, rows, None).status == d.status,
{
}

/// A list or the profiles that are asked for again are asked for once: what is waited for is the new
/// request, and nothing more is owed.
pub proof fn what_has_changed_is_read_once_more(s: UiView, reply: Result<Reply, String>)
    requires
        !s.flow.closed,
    ensures
        s.flow.list_again ==> {
            let t = list_done(s, reply);
            &&& !t.flow.list_again
            &&& went_out(s.flow, t.flow, seq![RequestView::List])
            &&& t.flow.latest_list == s.flow.next_id + 1
            &&& t.sidebar == s.sidebar && t.detail == s.detail
        },
        s.flow.profiles_again ==> {
            let t = profiles_done(s, reply);
            &&& !t.flow.profiles_again
            &&& went_out(s.flow, t.flow, seq![RequestView::Profiles])
            &&& t.flow.latest_profiles == s.flow.next_id + 1
            &&& t.images == s.images
        },
        !s.flow.list_again ==> list_done(s, reply).flow.latest_list == 0,
        !s.flow.profiles_again ==> {
            let t = profiles_done(s, reply);
            &&& t.flow.latest_profiles == 0
            &&& (profiles_of(answer(reply)) matches Ok(rows) ==> t.images.profiles == rows)
        },
{
}

// ---------------------------------------------------------------------------------------------
// Operations
// ---------------------------------------------------------------------------------------------

/// An operation that begins is sent as it was asked for, is waited for under its number, and says
/// what it does.
pub proof fn an_operation_begins(s: UiView, r: RequestView, label: Seq<char>, kind: KindView)
    requires
        !s.flow.closed,
        s.flow.connected,
        s.operation.pending is None,
    ensures
        ({
            let t = action_sent(s, r, label, kind);
            &&& went_out(s.flow, t.flow, seq![r])
            &&& t.operation.pending matches Some(p)
            &&& p.id == s.flow.next_id + 1 && p.label == label && p.kind == kind
            &&& t.operation.visible && !t.operation.failed
            &&& t.operation.title == label
            &&& t.operation.status == "Выполняется…"@
            &&& t.operation.summary == label + "…"@
            &&& t.operation.progress.len() == 0
            &&& t.sidebar == s.sidebar && t.detail == s.detail && t.dialog == s.dialog
        }),
{
}

/// What is asked of a space goes out under the name of the operation, for that space: without a
/// passphrase where none is wanted, and with the one that was typed where it is.
pub proof fn an_operation_is_sent_for_its_space(
    s: UiView,
    op: Seq<char>,
    id: Seq<char>,
    passphrase: Seq<char>,
    label: Seq<char>,
)
    requires
        !s.flow.closed,
        s.flow.connected,
        s.operation.pending is None,
    ensures
        !passphrase_needed(op, s.sidebar.spaces, id) ==> {
            let t = operated(s, op, id);
            &&& went_out(
                s.flow,
                t.flow,
                seq![RequestView::Operate { op, space: id, passphrase: None }],
            )
            &&& t.operation.title == op + " "@ + id
            &&& t.operation.pending matches Some(p) && p.kind is Other
        },
        passphrase.len() > 0 ==> {
            let t = passphrase_submitted(s, passphrase, id, op, label);
            &&& went_out(
                s.flow,
                t.flow,
                seq![RequestView::Operate { op, space: id, passphrase: Some(passphrase) }],
            )
            &&& t.operation.title == label
            &&& t.operation.pending matches Some(p) && p.kind == (KindView::Passphrase {
                op,
                space: id,
            })
        },
        passphrase.len() == 0 ==> passphrase_submitted(s, passphrase, id, op, label) == s,
{
}

/// An image is built for the profile that was named, without the blanks round its name.
pub proof fn a_build_is_sent_for_its_profile(s: UiView, profile: Seq<char>)
    requires
        !s.flow.closed,
        s.flow.connected,
        s.operation.pending is None,
    ensures
        trim(profile).len() == 0 ==> build_started(s, profile) == s,
        trim(profile).len() > 0 ==> {
            let t = build_started(s, profile);
            &&& went_out(s.flow, t.flow, seq![RequestView::Build { profile: trim(profile) }])
            &&& t.operation.title == "Сборка образа "@ + trim(profile)
        },
{
}

/// A form that can be sent is sent for the profile that is selected in it, and closed; one that
/// cannot stays as it is.
pub proof fn a_form_is_sent_once(s: UiView, input: InputView)
    requires
        !s.flow.closed,
    ensures
        !can_submit(s, input) ==> create_submitted(s, input) == s,
        can_submit(s, input) ==> {
            let t = create_submitted(s, input);
            let profile = dialog_profile(s.dialog->0);
            &&& profile is Some
            &&& t.dialog is None
            &&& went_out(s.flow, t.flow, seq![creation(input, profile->0.profile)])
            &&& t.operation.title == "создание спейса "@ + input.id
            &&& t.operation.pending matches Some(p) && p.kind == (KindView::Create {
                new_id: input.id,
                encrypted: input.encrypt,
            })
            &&& !can_submit(t, input)
        },
{
}

/// News of the operation are its last line, its status and the line at the foot of the window; of
/// a long text the last lines are kept, each no longer than a line may be.
pub proof fn news_are_shown(s: UiView, p: PendingView, text: Seq<char>)
    requires
        s.operation.pending == Some(p),
        lines(text).len() > 0,
    ensures
        ({
            let t = progressed(s, p.id, text);
            let last = lines(text)[lines(text).len() - 1];
            &&& t.operation.status == text && t.operation.summary == text
            &&& t.operation.pending == s.operation.pending
            &&& t.operation.progress.len() <= 200
            &&& t.operation.progress.len() > 0
            &&& last.len() <= 1024 ==> t.operation.progress.last() == last
            &&& last.len() > 1024 ==> t.operation.progress.last() == last.take(1024)
            &&& s.operation.progress.len() + lines(text).len() <= 200
                ==> t.operation.progress.len() == s.operation.progress.len() + lines(text).len()
            &&& (s.dialog matches Some(d) ==> t.dialog matches Some(e) && e.status == Some(text)
                && e.profiles == d.profiles && e.index == d.index)
        }),
{
}

/// An operation ends in words: those of the refusal, or that it is done. A success reads everything
/// anew, and a space that was created is waited for.
pub proof fn an_operation_ends_in_words(
    s: UiView,
    p: PendingView,
    code: String,
    message: String,
    reply: Result<Reply, String>,
    id: Seq<char>,
)
    requires
        reply matches Ok(Reply::Value(_)),
    ensures
        ({
            let refused = action_done(s, p, Ok(Reply::Refusal { code, message }));
            let words = code@ + ": "@ + message@;
            &&& refused.operation.pending is None && refused.operation.failed
            &&& refused.operation.status == words && refused.operation.summary == words
            &&& refused.flow == s.flow && refused.sidebar == s.sidebar
        }),
        ({
            let lost = action_done(s, p, Err(message));
            &&& lost.operation.pending is None && lost.operation.failed
            &&& lost.operation.status == message@
            &&& lost.flow == s.flow && lost.sidebar == s.sidebar
        }),
        ({
            let t = action_done(s, p, reply);
            &&& t.operation.pending is None && t.operation.failed == s.operation.failed
            &&& t.operation.status == p.label + ": выполнено"@
            &&& t.operation.summary == t.operation.status
            &&& t.flow.epoch == s.flow.epoch + 1
            &&& is_quiet(s.flow) && s.sidebar.selected == Some(id) ==> went_out(
                s.flow,
                t.flow,
                seq![RequestView::List, RequestView::Describe { space: id }, RequestView::Profiles],
            )
            &&& s.flow.latest_list != 0 ==> t.flow.list_again
            &&& s.flow.latest_profiles != 0 ==> t.flow.profiles_again
            &&& (p.kind matches KindView::Create { new_id, encrypted } ==> {
                &&& t.sidebar.pending_select == Some(new_id)
                &&& prompt_after(p, reply) == Some(
                    PromptView::StartCreated { id: new_id, encrypted },
                )
            })
            &&& !(p.kind is Create) ==> t.sidebar == s.sidebar && prompt_after(p, reply) is None
        }),
{
    reveal_strlit(": выполнено");
}

/// What can be pressed is what the state of the selected space allows: a stopped one can be
/// started, changed and destroyed, a running one stopped and looked at, one that does not answer
/// stopped. Starting and stopping are never shown together.
pub proof fn the_buttons_follow_the_state(s: UiView, can_create: bool, can_build: bool)
    requires
        s.operation.pending is None,
        s.flow.connected,
    ensures
        ({
            let b = buttons_of(s, can_create, can_build);
            let state = selected_state(s);
            let stopped = state == Some("stopped"@);
            let running = state == Some("running"@);
            let silent = state == Some("unresponsive"@);
            &&& b.start == stopped
            &&& b.stop == (running || silent)
            &&& b.open_window == running
            &&& b.update_image == stopped
            &&& b.reset_system == stopped
            &&& b.reset_all == stopped
            &&& b.destroy == stopped
            &&& b.build && b.create
            &&& b.start_shown == !b.stop_shown
            &&& b.stop_shown == (running || silent)
            &&& b.open_window_shown == running
            &&& b.form_create == (s.dialog is Some && can_create)
            &&& b.form_build == (s.dialog is Some && can_build)
        }),
{
}

/// The form can be sent while it is open, the daemon is there, nothing runs and nothing is wrong
/// with it. It opens empty and asks for the profiles; a form that is open stays as it is.
pub proof fn a_form_is_open_while_it_can_be_sent(s: UiView, input: InputView)
    ensures
        can_submit(s, input) ==> s.dialog is Some && s.flow.connected && s.operation.pending is None,
        s.dialog is Some && s.flow.connected && s.operation.pending is None ==> (can_submit(s, input)
            <==> checked(input, dialog_profile(s.dialog->0), s.sidebar.spaces).can_create),
        s.dialog is Some ==> dialog_opened(s) == s,
        s.dialog is None ==> {
            let t = dialog_opened(s);
            &&& t.dialog matches Some(d)
            &&& d.profiles.len() == 0 && d.index == 0 && d.status is None && d.failure is None
            &&& is_quiet(s.flow) ==> went_out(s.flow, t.flow, seq![RequestView::Profiles])
            &&& t.sidebar == s.sidebar && t.operation == s.operation && t.page == s.page
        },
{
}

/// The profile that is selected among the images can be built if its manifest can be read.
pub proof fn a_readable_profile_can_be_built(
    s: UiView,
    can_create: bool,
    can_build: bool,
    name: Seq<char>,
    k: int,
)
    requires
        s.operation.pending is None,
        s.flow.connected,
        s.images.selected == Some(name),
        0 <= k < s.images.profiles.len(),
        s.images.profiles[k].profile == name,
        forall|i: int|
            0 <= i < s.images.profiles.len() && i != k ==> (#[trigger] s.images.profiles[i]).profile
                != name,
    ensures
        buttons_of(s, can_create, can_build).profile_build == s.images.profiles[k].manifest_ok,
{
}

} // verus!
