//! The windows of the compositor, kept up to date by its events.
use crate::json::{
    array_of, as_array, as_bool, as_str, as_u64, bool_of, get, items_view, json_fault, json_value,
    read_json, str_or, u64_of, Json, JsonView,
};
use std::collections::HashMap;
use vstd::prelude::*;

verus! {

#[derive(Debug, Clone, PartialEq, Eq)]
pub struct Window {
    pub id: u64,
    pub title: String,
    pub pid: Option<u32>,
}

#[verifier::ext_equal]
pub struct WindowView {
    pub id: u64,
    pub title: Seq<char>,
    pub pid: Option<u32>,
}

impl View for Window {
    type V = WindowView;

    open spec fn view(&self) -> WindowView {
        WindowView { id: self.id, title: self.title@, pid: self.pid }
    }
}

pub open spec fn window_views(windows: Seq<Window>) -> Seq<WindowView> {
    windows.map_values(|w: Window| w@)
}

#[derive(Debug, Clone, PartialEq, Eq)]
pub enum Event {
    /// All windows, and which of them is focused.
    WindowsChanged(Vec<Window>, Option<u64>),
    /// A window, and whether it is focused; nothing is said of the others.
    WindowOpenedOrChanged(Window, bool),
    WindowClosed(u64),
    WindowFocusChanged(Option<u64>),
    Other,
}

pub enum EventView {
    WindowsChanged(Seq<WindowView>, Option<u64>),
    WindowOpenedOrChanged(WindowView, bool),
    WindowClosed(u64),
    WindowFocusChanged(Option<u64>),
    Other,
}

impl View for Event {
    type V = EventView;

    open spec fn view(&self) -> EventView {
        match *self {
            Event::WindowsChanged(windows, focused) => EventView::WindowsChanged(
                window_views(windows@),
                focused,
            ),
            Event::WindowOpenedOrChanged(window, focused) => EventView::WindowOpenedOrChanged(
                window@,
                focused,
            ),
            Event::WindowClosed(id) => EventView::WindowClosed(id),
            Event::WindowFocusChanged(id) => EventView::WindowFocusChanged(id),
            Event::Other => EventView::Other,
        }
    }
}

// ---------------------------------------------------------------------------------------------
// Reading events
// ---------------------------------------------------------------------------------------------

pub open spec fn is_focused(v: JsonView) -> bool {
    as_bool(get(v, "is_focused"@)) == Some(true)
}

fn window_is_focused(value: &Json) -> (r: bool)
    ensures
        r == is_focused(value@),
{
    match bool_of(value.get("is_focused")) {
        Some(b) => b,
        None => false,
    }
}

/// The process of a window; it may be missing or null, and nothing else but a number.
pub open spec fn pid_in(v: JsonView) -> Result<Option<u32>, Seq<char>> {
    match get(v, "pid"@) {
        None => Ok(None),
        Some(JsonView::Null) => Ok(None),
        Some(JsonView::Unsigned(n)) => if n <= u32::MAX {
            Ok(Some(n as u32))
        } else {
            Err("pid не помещается в u32"@)
        },
        Some(_) => Err("поле pid не является числом"@),
    }
}

pub open spec fn window_in(v: JsonView) -> Result<WindowView, Seq<char>> {
    match as_u64(get(v, "id"@)) {
        None => Err("окно без числового id"@),
        Some(id) => match pid_in(v) {
            Err(e) => Err(e),
            Ok(pid) => Ok(
                WindowView {
                    id,
                    title: match as_str(get(v, "title"@)) {
                        Some(t) => t,
                        None => ""@,
                    },
                    pid,
                },
            ),
        },
    }
}

fn window_from_value(value: &Json) -> (r: Result<Window, String>)
    ensures
        match (r, window_in(value@)) {
            (Ok(w), Ok(v)) => w@ == v,
            (Err(m), Err(e)) => m@ == e,
            _ => false,
        },
{
    let id: u64 = match u64_of(value.get("id")) {
        Some(id) => id,
        None => {
            return Err("окно без числового id".to_owned());
        },
    };
    let title = str_or(value.get("title"), "");
    let pid: Option<u32> = match value.get("pid") {
        None => None,
        Some(Json::Null) => None,
        Some(Json::Unsigned(n)) => {
            if *n <= u32::MAX as u64 {
                Some(*n as u32)
            } else {
                return Err("pid не помещается в u32".to_owned());
            }
        },
        Some(_) => {
            return Err("поле pid не является числом".to_owned());
        },
    };
    Ok(Window { id, title, pid })
}

/// The windows of a list; the first that cannot be read decides.
pub open spec fn windows_in(items: Seq<JsonView>) -> Result<Seq<WindowView>, Seq<char>>
    decreases items.len(),
{
    if items.len() == 0 {
        Ok(seq![])
    } else {
        match windows_in(items.drop_last()) {
            Err(e) => Err(e),
            Ok(front) => match window_in(items.last()) {
                Err(e) => Err(e),
                Ok(w) => Ok(front.push(w)),
            },
        }
    }
}

/// The first window of a list that is focused.
pub open spec fn focused_in(items: Seq<JsonView>) -> Option<u64>
    decreases items.len(),
{
    if items.len() == 0 {
        None
    } else {
        match focused_in(items.drop_last()) {
            Some(id) => Some(id),
            None => if is_focused(items.last()) {
                as_u64(get(items.last(), "id"@))
            } else {
                None
            },
        }
    }
}

proof fn lemma_windows_error(items: Seq<JsonView>, k: int)
    requires
        0 <= k <= items.len(),
        windows_in(items.take(k)) is Err,
    ensures
        windows_in(items) == windows_in(items.take(k)),
    decreases items.len() - k,
{
    if k < items.len() {
        assert(items.take(k + 1).drop_last() =~= items.take(k));
        lemma_windows_error(items, k + 1);
    } else {
        assert(items.take(k) =~= items);
    }
}

fn windows_from_values(items: &Vec<Json>) -> (r: Result<(Vec<Window>, Option<u64>), String>)
    ensures
        match (r, windows_in(items_view(items@))) {
            (Ok(found), Ok(ws)) => window_views(found.0@) == ws && found.1 == focused_in(
                items_view(items@),
            ),
            (Err(m), Err(e)) => m@ == e,
            _ => false,
        },
{
    let ghost all = items_view(items@);
    let mut windows: Vec<Window> = Vec::new();
    let mut focused: Option<u64> = None;
    assert(all.take(0) =~= seq![]);
    assert(window_views(windows@) =~= seq![]);
    for i in 0..items.len()
        invariant
            all == items_view(items@),
            windows_in(all.take(i as int)) == Ok::<Seq<WindowView>, Seq<char>>(
                window_views(windows@),
            ),
            focused == focused_in(all.take(i as int)),
    {
        assert(all.take(i + 1).drop_last() =~= all.take(i as int));
        assert(all.take(i + 1).last() == items@[i as int]@);
        match window_from_value(&items[i]) {
            Ok(window) => {
                if focused.is_none() && window_is_focused(&items[i]) {
                    focused = Some(window.id);
                }
                let ghost before = window_views(windows@);
                windows.push(window);
                assert(window_views(windows@) =~= before.push(window@));
            },
            Err(e) => {
                proof {
                    lemma_windows_error(all, i + 1);
                }
                return Err(e);
            },
        }
    }
    assert(all.take(items@.len() as int) =~= all);
    Ok((windows, focused))
}

/// What an event says.
pub open spec fn event_in(v: JsonView) -> Result<EventView, Seq<char>> {
    if let Some(payload) = get(v, "WindowsChanged"@) {
        match as_array(get(payload, "windows"@)) {
            None => Err("WindowsChanged без массива windows"@),
            Some(items) => match windows_in(items) {
                Err(e) => Err(e),
                Ok(windows) => Ok(EventView::WindowsChanged(windows, focused_in(items))),
            },
        }
    } else if let Some(payload) = get(v, "WindowOpenedOrChanged"@) {
        match get(payload, "window"@) {
            None => Err("WindowOpenedOrChanged без window"@),
            Some(raw) => match window_in(raw) {
                Err(e) => Err(e),
                Ok(window) => Ok(EventView::WindowOpenedOrChanged(window, is_focused(raw))),
            },
        }
    } else if let Some(payload) = get(v, "WindowClosed"@) {
        match as_u64(get(payload, "id"@)) {
            None => Err("WindowClosed без числового id"@),
            Some(id) => Ok(EventView::WindowClosed(id)),
        }
    } else if let Some(payload) = get(v, "WindowFocusChanged"@) {
        match get(payload, "id"@) {
            None => Err("WindowFocusChanged без поля id"@),
            Some(JsonView::Null) => Ok(EventView::WindowFocusChanged(None)),
            Some(JsonView::Unsigned(id)) => Ok(EventView::WindowFocusChanged(Some(id))),
            Some(_) => Err("поле id в WindowFocusChanged не является числом"@),
        }
    } else {
        Ok(EventView::Other)
    }
}

/// The outcome of reading an event is the one that is stated.
pub open spec fn event_is(r: Result<Event, String>, want: Result<EventView, Seq<char>>) -> bool {
    match (r, want) {
        (Ok(e), Ok(v)) => e@ == v,
        (Err(m), Err(words)) => m@ == words,
        _ => false,
    }
}

/// Reads an event that has been parsed.
pub fn event_from(value: &Json) -> (r: Result<Event, String>)
    ensures
        event_is(r, event_in(value@)),
{
    if let Some(payload) = value.get("WindowsChanged") {
        return match array_of(payload.get("windows")) {
            None => Err("WindowsChanged без массива windows".to_owned()),
            Some(items) => match windows_from_values(items) {
                Ok(found) => Ok(Event::WindowsChanged(found.0, found.1)),
                Err(e) => Err(e),
            },
        };
    }
    if let Some(payload) = value.get("WindowOpenedOrChanged") {
        return match payload.get("window") {
            None => Err("WindowOpenedOrChanged без window".to_owned()),
            Some(raw) => match window_from_value(raw) {
                Ok(window) => Ok(Event::WindowOpenedOrChanged(window, window_is_focused(raw))),
                Err(e) => Err(e),
            },
        };
    }
    if let Some(payload) = value.get("WindowClosed") {
        return match u64_of(payload.get("id")) {
            None => Err("WindowClosed без числового id".to_owned()),
            Some(id) => Ok(Event::WindowClosed(id)),
        };
    }
    if let Some(payload) = value.get("WindowFocusChanged") {
        return match payload.get("id") {
            None => Err("WindowFocusChanged без поля id".to_owned()),
            Some(Json::Null) => Ok(Event::WindowFocusChanged(None)),
            Some(Json::Unsigned(id)) => Ok(Event::WindowFocusChanged(Some(*id))),
            Some(_) => Err("поле id в WindowFocusChanged не является числом".to_owned()),
        };
    }
    Ok(Event::Other)
}

/// Reads a line of the stream of events.
pub fn parse_event(line: &str) -> (r: Result<Event, String>)
    ensures
        event_is(
            r,
            match json_value(line@) {
                Some(v) => event_in(v),
                None => Err("строка события не является JSON: "@ + json_fault(line@)),
            },
        ),
{
    match read_json(line) {
        Ok(value) => event_from(&value),
        Err(fault) => Err("строка события не является JSON: ".to_owned().concat(fault.as_str())),
    }
}

// ---------------------------------------------------------------------------------------------
// The windows
// ---------------------------------------------------------------------------------------------

/// What is focused. That it is not known, and that there is no focus, are two things.
#[derive(Debug, Clone, Copy, PartialEq, Eq)]
pub enum Focus<'a> {
    Unknown,
    Absent,
    Window(&'a Window),
}

#[derive(Debug, Clone, Copy, PartialEq, Eq, Structural)]
pub enum FocusId {
    Unknown,
    Absent,
    Window(u64),
}

pub struct WindowMap {
    pub windows: HashMap<u64, Window>,
    pub focus: FocusId,
}

#[verifier::ext_equal]
pub struct MapView {
    pub windows: Map<u64, WindowView>,
    pub focus: FocusId,
}

impl View for WindowMap {
    type V = MapView;

    open spec fn view(&self) -> MapView {
        MapView {
            windows: self.windows@.map_values(|w: Window| w@),
            focus: self.focus,
        }
    }
}

/// Windows by their ids; of two with one id the later one stays.
pub open spec fn by_id(windows: Seq<WindowView>) -> Map<u64, WindowView>
    decreases windows.len(),
{
    if windows.len() == 0 {
        Map::empty()
    } else {
        by_id(windows.drop_last()).insert(windows.last().id, windows.last())
    }
}

pub open spec fn focus_on(id: Option<u64>) -> FocusId {
    match id {
        Some(id) => FocusId::Window(id),
        None => FocusId::Absent,
    }
}

/// What an event makes of the windows.
pub open spec fn applied(m: MapView, event: EventView) -> MapView {
    match event {
        EventView::WindowsChanged(windows, focused) => MapView {
            windows: by_id(windows),
            focus: focus_on(focused),
        },
        EventView::WindowOpenedOrChanged(window, focused) => MapView {
            windows: m.windows.insert(window.id, window),
            focus: if focused {
                FocusId::Window(window.id)
            } else {
                m.focus
            },
        },
        EventView::WindowClosed(id) => MapView {
            windows: m.windows.remove(id),
            focus: if m.focus == FocusId::Window(id) {
                FocusId::Absent
            } else {
                m.focus
            },
        },
        EventView::WindowFocusChanged(id) => MapView { focus: focus_on(id), ..m },
        EventView::Other => m,
    }
}

/// The window that is focused, if there is one and it is known.
pub open spec fn focused_window(m: MapView) -> Option<WindowView> {
    match m.focus {
        FocusId::Window(id) => if m.windows.contains_key(id) {
            Some(m.windows[id])
        } else {
            None
        },
        _ => None,
    }
}

pub open spec fn no_windows() -> MapView {
    MapView { windows: Map::empty(), focus: FocusId::Unknown }
}

impl Default for WindowMap {
    fn default() -> (r: WindowMap)
        ensures
            r@ == no_windows(),
    {
        broadcast use vstd::std_specs::hash::group_hash_axioms;

        let r = WindowMap { windows: HashMap::new(), focus: FocusId::Unknown };
        assert(r@.windows =~= Map::empty());
        r
    }
}

fn insert_window(map: &mut HashMap<u64, Window>, window: Window)
    ensures
        final(map)@.map_values(|w: Window| w@) == old(map)@.map_values(|w: Window| w@).insert(
            window.id,
            window@,
        ),
{
    broadcast use vstd::std_specs::hash::group_hash_axioms;

    let ghost before = map@;
    map.insert(window.id, window);
    assert(map@ == before.insert(window.id, window));
    assert(map@.map_values(|w: Window| w@) =~= before.map_values(|w: Window| w@).insert(
        window.id,
        window@,
    ));
}

impl WindowMap {
    pub fn apply(&mut self, event: Event)
        ensures
            final(self)@ == applied(old(self)@, event@),
    {
        broadcast use vstd::std_specs::hash::group_hash_axioms;

        match event {
            Event::WindowsChanged(windows, focused) => {
                let ghost all = window_views(windows@);
                let mut map: HashMap<u64, Window> = HashMap::new();
                assert(map@.map_values(|w: Window| w@) =~= Map::empty());
                assert(all.take(0) =~= seq![]);
                for i in 0..windows.len()
                    invariant
                        all == window_views(windows@),
                        map@.map_values(|w: Window| w@) == by_id(all.take(i as int)),
                {
                    assert(all.take(i + 1).drop_last() =~= all.take(i as int));
                    let w = &windows[i];
                    assert(all.take(i + 1).last() == w@);
                    let copy = Window { id: w.id, title: w.title.clone(), pid: w.pid };
                    assert(copy@ == w@);
                    insert_window(&mut map, copy);
                }
                assert(all.take(windows@.len() as int) =~= all);
                self.windows = map;
                self.focus = match focused {
                    Some(id) => FocusId::Window(id),
                    None => FocusId::Absent,
                };
            },
            Event::WindowOpenedOrChanged(window, focused) => {
                let id: u64 = window.id;
                insert_window(&mut self.windows, window);
                if focused {
                    self.focus = FocusId::Window(id);
                }
            },
            Event::WindowClosed(id) => {
                let ghost before = self.windows@;
                self.windows.remove(&id);
                assert(self.windows@ == before.remove(id));
                assert(self.windows@.map_values(|w: Window| w@) =~= before.map_values(
                    |w: Window| w@,
                ).remove(id));
                if self.focus == FocusId::Window(id) {
                    self.focus = FocusId::Absent;
                }
            },
            Event::WindowFocusChanged(id) => {
                self.focus = match id {
                    Some(id) => FocusId::Window(id),
                    None => FocusId::Absent,
                };
            },
            Event::Other => {},
        }
    }

    /// The window with an id.
    pub fn get(&self, id: u64) -> (r: Option<&Window>)
        ensures
            match r {
                Some(w) => self@.windows.contains_key(id) && w@ == self@.windows[id],
                None => !self@.windows.contains_key(id),
            },
    {
        broadcast use vstd::std_specs::hash::group_hash_axioms;

        self.windows.get(&id)
    }

    pub fn focus(&self) -> (r: Focus<'_>)
        ensures
            match r {
                Focus::Unknown => self@.focus is Unknown,
                Focus::Absent => !(self@.focus is Unknown) && focused_window(self@) is None,
                Focus::Window(w) => focused_window(self@) == Some(w@),
            },
    {
        match self.focus {
            FocusId::Unknown => Focus::Unknown,
            FocusId::Absent => Focus::Absent,
            FocusId::Window(id) => match self.get(id) {
                Some(window) => Focus::Window(window),
                None => Focus::Absent,
            },
        }
    }

    pub fn focused(&self) -> (r: Option<&Window>)
        ensures
            match r {
                Some(w) => focused_window(self@) == Some(w@),
                None => focused_window(self@) is None,
            },
    {
        match self.focus() {
            Focus::Window(window) => Some(window),
            _ => None,
        }
    }
}

/// The windows after a stream of events.
pub open spec fn after_events(m: MapView, events: Seq<EventView>) -> MapView
    decreases events.len(),
{
    if events.len() == 0 {
        m
    } else {
        applied(after_events(m, events.drop_last()), events.last())
    }
}

/// The windows are kept under their own ids.
pub open spec fn keyed_by_id(m: MapView) -> bool {
    forall|id: u64| #[trigger] m.windows.contains_key(id) ==> m.windows[id].id == id
}

proof fn lemma_by_id(windows: Seq<WindowView>)
    ensures
        forall|id: u64| #[trigger]
            by_id(windows).contains_key(id) ==> by_id(windows)[id].id == id && windows.contains(
                by_id(windows)[id],
            ),
    decreases windows.len(),
{
    if windows.len() > 0 {
        let front = windows.drop_last();
        lemma_by_id(front);
        assert forall|id: u64| #[trigger] by_id(windows).contains_key(id) implies by_id(
            windows,
        )[id].id == id && windows.contains(by_id(windows)[id]) by {
            if id == windows.last().id {
                assert(windows[windows.len() - 1] == by_id(windows)[id]);
            } else {
                assert(by_id(front).contains_key(id));
                let k = choose|k: int| 0 <= k < front.len() && front[k] == by_id(front)[id];
                assert(windows[k] == by_id(windows)[id]);
            }
        }
    }
}

/// A window is kept under its own id, whatever comes.
pub proof fn windows_keep_their_ids(events: Seq<EventView>)
    ensures
        keyed_by_id(after_events(no_windows(), events)),
    decreases events.len(),
{
    if events.len() > 0 {
        windows_keep_their_ids(events.drop_last());
        if let EventView::WindowsChanged(windows, focused) = events.last() {
            lemma_by_id(windows);
        }
    }
}

/// A window that has been closed is not focused, and not known.
pub proof fn a_closed_window_is_gone(m: MapView, id: u64)
    requires
        keyed_by_id(m),
    ensures
        !applied(m, EventView::WindowClosed(id)).windows.contains_key(id),
        focused_window(applied(m, EventView::WindowClosed(id))) matches Some(w) ==> w.id != id,
        forall|other: u64|
            other != id ==> (m.windows.contains_key(other) <==> #[trigger] applied(
                m,
                EventView::WindowClosed(id),
            ).windows.contains_key(other)),
{
}

/// A list of all windows counts alone: nothing of what was known before stays.
pub proof fn a_snapshot_replaces_all(
    a: MapView,
    b: MapView,
    windows: Seq<WindowView>,
    focused: Option<u64>,
)
    ensures
        applied(a, EventView::WindowsChanged(windows, focused)) == applied(
            b,
            EventView::WindowsChanged(windows, focused),
        ),
        forall|id: u64| #[trigger]
            applied(a, EventView::WindowsChanged(windows, focused)).windows.contains_key(id)
                ==> windows.contains(
                applied(a, EventView::WindowsChanged(windows, focused)).windows[id],
            ),
{
    lemma_by_id(windows);
}

/// Whether an event speaks of the focus.
pub open spec fn tells_focus(event: EventView) -> bool {
    match event {
        EventView::WindowsChanged(windows, focused) => true,
        EventView::WindowOpenedOrChanged(window, focused) => focused,
        EventView::WindowFocusChanged(id) => true,
        _ => false,
    }
}

/// The focus is unknown until an event speaks of it, and never again after that.
pub proof fn the_focus_is_known_once_told(events: Seq<EventView>)
    ensures
        after_events(no_windows(), events).focus is Unknown <==> (forall|i: int|
            0 <= i < events.len() ==> !tells_focus(#[trigger] events[i])),
    decreases events.len(),
{
    if events.len() > 0 {
        let front = events.drop_last();
        the_focus_is_known_once_told(front);
        if forall|i: int| 0 <= i < front.len() ==> !tells_focus(#[trigger] front[i]) {
            if !tells_focus(events.last()) {
                assert forall|i: int| 0 <= i < events.len() implies !tells_focus(
                    #[trigger] events[i],
                ) by {
                    if i < front.len() {
                        assert(!tells_focus(front[i]));
                    }
                }
            }
        } else {
            let i = choose|i: int| 0 <= i < front.len() && tells_focus(#[trigger] front[i]);
            assert(tells_focus(events[i]));
        }
    }
}

} // verus!
