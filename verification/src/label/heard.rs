//! What the strip hears of the compositor and of its command line, and how it answers in words.
use crate::json::{as_array, as_bool, as_str, as_u64, get, JsonView};
use crate::label::niri::{
    event_in, focused_in, is_focused, window_in, windows_in, EventView, MapView, WindowView,
};
use crate::label::session::{
    info_in, infos_in, label_of, line_applied, rendered, strip_words, with_value, LabelView,
};
use crate::label::strip::{InfoView, StripView};
use crate::text::{parse_dec, trim};
use vstd::prelude::*;

verus! {

// ---------------------------------------------------------------------------------------------
// Windows
// ---------------------------------------------------------------------------------------------

/// A window is read as it is told: by its number, its title and its process. A process may be
/// missing; what is no number is none.
pub proof fn a_window_is_read_as_it_is_told(v: JsonView, id: u64, title: Seq<char>, pid: u64)
    requires
        as_u64(get(v, "id"@)) == Some(id),
        as_str(get(v, "title"@)) == Some(title),
    ensures
        get(v, "pid"@) == Some(JsonView::Unsigned(pid)) && pid <= 0xffff_ffff ==> window_in(v)
            == Ok::<WindowView, Seq<char>>(WindowView { id, title, pid: Some(pid as u32) }),
        get(v, "pid"@) == Some(JsonView::Unsigned(pid)) && pid > 0xffff_ffff ==> window_in(v)
            is Err,
        get(v, "pid"@) is None || get(v, "pid"@) == Some(JsonView::Null) ==> window_in(v) == Ok::<
            WindowView,
            Seq<char>,
        >(WindowView { id, title, pid: None }),
{
}

proof fn lemma_windows_in(items: Seq<JsonView>, k: int)
    requires
        windows_in(items) is Ok,
        0 <= k < items.len(),
    ensures
        windows_in(items)->Ok_0.len() == items.len(),
        window_in(items[k]) == Ok::<WindowView, Seq<char>>(windows_in(items)->Ok_0[k]),
    decreases items.len(),
{
    let front = items.drop_last();
    if front.len() > 0 {
        lemma_windows_in(front, if k < front.len() {
            k
        } else {
            0
        });
    } else {
        assert(windows_in(front)->Ok_0.len() == 0);
    }
    if k < front.len() {
        assert(front[k] == items[k]);
    }
}

proof fn lemma_focused_in(items: Seq<JsonView>, k: int, id: u64)
    requires
        0 <= k < items.len(),
        is_focused(items[k]),
        as_u64(get(items[k], "id"@)) == Some(id),
        forall|j: int| 0 <= j < k ==> !is_focused(#[trigger] items[j]),
    ensures
        focused_in(items) == Some(id),
    decreases items.len(),
{
    let front = items.drop_last();
    if k < front.len() {
        assert(front[k] == items[k]);
        assert forall|j: int| 0 <= j < k implies !is_focused(#[trigger] front[j]) by {
            assert(!is_focused(items[j]));
        }
        lemma_focused_in(front, k, id);
    } else {
        lemma_none_focused(front);
    }
}

proof fn lemma_none_focused(items: Seq<JsonView>)
    requires
        forall|j: int| 0 <= j < items.len() ==> !is_focused(#[trigger] items[j]),
    ensures
        focused_in(items) is None,
    decreases items.len(),
{
    if items.len() > 0 {
        let front = items.drop_last();
        assert forall|j: int| 0 <= j < front.len() implies !is_focused(#[trigger] front[j]) by {
            assert(!is_focused(items[j]));
        }
        assert(!is_focused(items[items.len() - 1]));
        lemma_none_focused(front);
    }
}

/// A list of all windows is read in full and in order, with the focus on the first window that
/// claims it, or on none.
pub proof fn a_list_of_windows_is_read_in_full(
    v: JsonView,
    payload: JsonView,
    items: Seq<JsonView>,
    k: int,
    id: u64,
)
    requires
        get(v, "WindowsChanged"@) == Some(payload),
        as_array(get(payload, "windows"@)) == Some(items),
        0 <= k < items.len(),
        as_u64(get(items[k], "id"@)) == Some(id),
    ensures
        event_in(v) matches Ok(event) ==> (event matches EventView::WindowsChanged(windows, focused)
            && windows.len() == items.len() && window_in(items[k]) == Ok::<WindowView, Seq<char>>(
            windows[k],
        )),
        event_in(v) is Ok && as_bool(get(items[k], "is_focused"@)) == Some(true) && (forall|j: int|
            0 <= j < k ==> as_bool(get(#[trigger] items[j], "is_focused"@)) != Some(true)) ==> (
        event_in(v)->Ok_0 matches EventView::WindowsChanged(windows, focused) && focused == Some(
            id,
        )),
        event_in(v) is Ok && (forall|j: int|
            0 <= j < items.len() ==> as_bool(get(#[trigger] items[j], "is_focused"@)) != Some(
                true,
            )) ==> (event_in(v)->Ok_0 matches EventView::WindowsChanged(windows, focused) && focused
            is None),
        window_in(items[k]) is Err ==> event_in(v) is Err,
{
    if windows_in(items) is Ok {
        lemma_windows_in(items, k);
        if as_bool(get(items[k], "is_focused"@)) == Some(true) && (forall|j: int|
            0 <= j < k ==> as_bool(get(#[trigger] items[j], "is_focused"@)) != Some(true)) {
            assert forall|j: int| 0 <= j < k implies !is_focused(#[trigger] items[j]) by {
                assert(as_bool(get(items[j], "is_focused"@)) != Some(true));
            }
            lemma_focused_in(items, k, id);
        }
        if forall|j: int|
            0 <= j < items.len() ==> as_bool(get(#[trigger] items[j], "is_focused"@)) != Some(
                true,
            ) {
            assert forall|j: int| 0 <= j < items.len() implies !is_focused(#[trigger] items[j]) by {
                assert(as_bool(get(items[j], "is_focused"@)) != Some(true));
            }
            lemma_none_focused(items);
        }
    }
}

/// An event of one window, of its end or of the focus is read under its name; an event under a name
/// that is not known is no error.
pub proof fn an_event_is_read_under_its_name(v: JsonView, payload: JsonView, raw: JsonView, id: u64)
    requires
        get(v, "WindowsChanged"@) is None,
    ensures
        get(v, "WindowOpenedOrChanged"@) == Some(payload) && get(payload, "window"@) == Some(raw)
            && window_in(raw) is Ok ==> event_in(v) == Ok::<EventView, Seq<char>>(
            EventView::WindowOpenedOrChanged(
                window_in(raw)->Ok_0,
                as_bool(get(raw, "is_focused"@)) == Some(true),
            ),
        ),
        get(v, "WindowOpenedOrChanged"@) is None && get(v, "WindowClosed"@) == Some(payload)
            && as_u64(get(payload, "id"@)) == Some(id) ==> event_in(v) == Ok::<
            EventView,
            Seq<char>,
        >(EventView::WindowClosed(id)),
        get(v, "WindowOpenedOrChanged"@) is None && get(v, "WindowClosed"@) is None && get(
            v,
            "WindowFocusChanged"@,
        ) == Some(payload) && get(payload, "id"@) == Some(JsonView::Unsigned(id)) ==> event_in(v)
            == Ok::<EventView, Seq<char>>(EventView::WindowFocusChanged(Some(id))),
        get(v, "WindowOpenedOrChanged"@) is None && get(v, "WindowClosed"@) is None && get(
            v,
            "WindowFocusChanged"@,
        ) == Some(payload) && get(payload, "id"@) == Some(JsonView::Null) ==> event_in(v) == Ok::<
            EventView,
            Seq<char>,
        >(EventView::WindowFocusChanged(None)),
        get(v, "WindowOpenedOrChanged"@) is None && get(v, "WindowClosed"@) is None && get(
            v,
            "WindowFocusChanged"@,
        ) is None ==> event_in(v) == Ok::<EventView, Seq<char>>(EventView::Other),
{
}

/// A blank line of the stream leaves the windows as they are.
pub proof fn a_blank_line_changes_nothing(m: MapView, line: Seq<char>)
    requires
        trim(line).len() == 0,
    ensures
        line_applied(m, line) == m,
{
}

// ---------------------------------------------------------------------------------------------
// Spaces
// ---------------------------------------------------------------------------------------------

/// What the daemon lists of a space is taken over under its names: the id, the colour, the level
/// and the state.
pub proof fn a_listed_space_is_taken_over(
    item: JsonView,
    id: Seq<char>,
    color: Seq<char>,
    level: Seq<char>,
    state: Seq<char>,
)
    requires
        as_str(get(item, "id"@)) == Some(id),
        as_str(get(item, "color"@)) == Some(color),
        as_str(get(item, "isolation-level"@)) == Some(level),
        as_str(get(item, "state"@)) == Some(state),
    ensures
        info_in(item) == Ok::<InfoView, Seq<char>>(InfoView { id, color, level, state }),
{
}

/// Every space of a list is taken over, in its place; a space that cannot be read spoils the list.
pub proof fn a_list_of_spaces_is_taken_over(items: Seq<JsonView>, k: int)
    requires
        0 <= k < items.len(),
    ensures
        infos_in(items) matches Ok(infos) ==> infos.len() == items.len() && info_in(items[k])
            == Ok::<InfoView, Seq<char>>(infos[k]),
        info_in(items[k]) is Err ==> infos_in(items) is Err,
    decreases items.len(),
{
    let front = items.drop_last();
    if front.len() > 0 {
        a_list_of_spaces_is_taken_over(front, if k < front.len() {
            k
        } else {
            0
        });
    } else {
        assert(infos_in(front)->Ok_0.len() == 0);
    }
    if k < front.len() {
        assert(front[k] == items[k]);
    }
}

/// In words the strip names what it shows, and names nothing else alike: every state of it begins
/// with a word of its own.
pub proof fn the_strip_in_words(
    m: MapView,
    cgroup: Option<Seq<char>>,
    id: Seq<char>,
    color: Seq<char>,
    level: Seq<char>,
)
    ensures
        strip_words(StripView::Host) == "STRIP host"@,
        strip_words(StripView::Space { id, color, level }) == "STRIP space "@ + id + " "@ + color
            + " "@ + level,
        strip_words(StripView::Orphan { id }) == "STRIP orphan "@ + id,
        strip_words(StripView::Unknown { id }) == "STRIP unknown "@ + id,
        strip_words(StripView::Unverified { claimed: id }) == "STRIP unverified "@ + id,
        strip_words(StripView::FocusUnknown) == "STRIP focus-unknown"@,
        rendered(m, cgroup, Err(id)) == "STRIP daemon-error "@ + id,
{
}

// ---------------------------------------------------------------------------------------------
// The command line
// ---------------------------------------------------------------------------------------------

proof fn lemma_label_flags()
    ensures
        "--dry-run"@ != "--socket"@,
        "--dry-run"@ != "--proc-dir"@,
        "--dry-run"@ != "--seconds"@,
        "--socket"@ != "--proc-dir"@,
        "--socket"@ != "--seconds"@,
        "--proc-dir"@ != "--seconds"@,
{
    reveal_strlit("--dry-run");
    reveal_strlit("--socket");
    reveal_strlit("--proc-dir");
    reveal_strlit("--seconds");
    assert("--dry-run"@.len() == 9 && "--socket"@.len() == 8);
    assert("--proc-dir"@.len() == 10 && "--seconds"@.len() == 9);
    assert("--dry-run"@[2] == 'd' && "--seconds"@[2] == 's');
}

/// The arguments that come last count: each flag sets what it names, and leaves the rest as the
/// arguments before it have it.
pub proof fn a_label_flag_sets_what_it_names(
    args: Seq<Seq<char>>,
    value: Seq<char>,
    c: LabelView,
)
    requires
        label_of(args, c) is Ok,
    ensures
        ({
            let before = label_of(args, c)->Ok_0;
            &&& label_of(args + seq!["--socket"@, value], c) == Ok::<LabelView, Seq<char>>(
                LabelView { socket: value, ..before },
            )
            &&& label_of(args + seq!["--proc-dir"@, value], c) == Ok::<LabelView, Seq<char>>(
                LabelView { proc_dir: value, ..before },
            )
            &&& label_of(args + seq!["--dry-run"@], c) == Ok::<LabelView, Seq<char>>(
                LabelView { dry_run: true, ..before },
            )
            &&& (parse_dec(value, 0xffff_ffff_ffff_ffff) matches Some(n) ==> label_of(
                args + seq!["--seconds"@, value],
                c,
            ) == Ok::<LabelView, Seq<char>>(LabelView { seconds: Some(n as u64), ..before }))
            &&& parse_dec(value, 0xffff_ffff_ffff_ffff) is None ==> label_of(
                args + seq!["--seconds"@, value],
                c,
            ) is Err
        }),
    decreases args.len(),
{
    lemma_label_flags();
    let a = args + seq!["--socket"@, value];
    let b = args + seq!["--proc-dir"@, value];
    let d = args + seq!["--dry-run"@];
    let e = args + seq!["--seconds"@, value];
    if args.len() == 0 {
        assert(a[0] == "--socket"@ && a[1] == value && a.skip(2) =~= seq![]);
        assert(b[0] == "--proc-dir"@ && b[1] == value && b.skip(2) =~= seq![]);
        assert(d[0] == "--dry-run"@ && d.skip(1) =~= seq![]);
        assert(e[0] == "--seconds"@ && e[1] == value && e.skip(2) =~= seq![]);
        reveal_with_fuel(label_of, 2);
    } else if args[0] == "--dry-run"@ {
        assert(a[0] == args[0] && b[0] == args[0] && d[0] == args[0] && e[0] == args[0]);
        let rest = args.skip(1);
        assert(a.skip(1) =~= rest + seq!["--socket"@, value]);
        assert(b.skip(1) =~= rest + seq!["--proc-dir"@, value]);
        assert(d.skip(1) =~= rest + seq!["--dry-run"@]);
        assert(e.skip(1) =~= rest + seq!["--seconds"@, value]);
        a_label_flag_sets_what_it_names(rest, value, LabelView { dry_run: true, ..c });
    } else {
        assert(a[0] == args[0] && b[0] == args[0] && d[0] == args[0] && e[0] == args[0]);
        assert(a[1] == args[1] && b[1] == args[1] && d[1] == args[1] && e[1] == args[1]);
        let rest = args.skip(2);
        assert(a.skip(2) =~= rest + seq!["--socket"@, value]);
        assert(b.skip(2) =~= rest + seq!["--proc-dir"@, value]);
        assert(d.skip(2) =~= rest + seq!["--dry-run"@]);
        assert(e.skip(2) =~= rest + seq!["--seconds"@, value]);
        a_label_flag_sets_what_it_names(
            rest,
            value,
            with_value(c, args[0], args[1])->Ok_0,
        );
    }
}

} // verus!
