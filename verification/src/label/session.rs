//! A session of the strip: its command line, what it asks the daemon, and when it draws what.
use crate::json::{
    array_of, as_array, as_str, get, items_view, json_fault, json_value, str_of, Json, JsonView,
};
use crate::label::bar::{bar_content, content_of, BarContent, BarView, WHITE};
use crate::label::font::{
    draw_text, drawing_stays_inside, drawn_dots, fit_text, fitted, fitted_text_fits,
    lemma_pixel_index, pixel, with_text,
};

use crate::label::niri::{
    applied, event_in, focused_window, parse_event, Event, FocusId, MapView, WindowMap,
};
use crate::label::strip::{
    info_views, strip_for, strip_of, FocusView, InfoView, SpaceInfo, Strip, StripView,
};
use crate::manager::view::{answer, reply_to_value, Reply};
use crate::text::{
    chars_of, chars_to_u64, number_fault, opt_text, parse_dec, str_equal, str_trim, texts, trim,
    why_no_number,
};
use vstd::prelude::*;

verus! {

pub const DEFAULT_SOCKET: &'static str = "/run/miyorios/control.sock";

pub const DEFAULT_PROC_DIR: &'static str = "/proc";

/// Seconds within which the daemon has to list its spaces.
pub const LIST_TIMEOUT: u64 = 5;

pub const BAR_HEIGHT: u32 = 24;

/// The width that a strip is taken to have until the compositor says otherwise.
pub const INITIAL_WIDTH_GUESS: u32 = 1920;

/// That the daemon does not answer is no ordinary state, and has a colour of its own.
pub const DAEMON_ERROR_BACKGROUND: u32 = 0xffb0_2020;

/// How far the text stays from the left end of the strip, and from its right end.
pub const TEXT_MARGIN: usize = 8;

/// How far it stays from the top.
pub const TEXT_TOP: usize = 2;

// ---------------------------------------------------------------------------------------------
// The command line
// ---------------------------------------------------------------------------------------------

pub struct LabelConfig {
    pub socket: String,
    pub proc_dir: String,
    pub dry_run: bool,
    pub seconds: Option<u64>,
}

#[verifier::ext_equal]
pub struct LabelView {
    pub socket: Seq<char>,
    pub proc_dir: Seq<char>,
    pub dry_run: bool,
    pub seconds: Option<u64>,
}

impl View for LabelConfig {
    type V = LabelView;

    open spec fn view(&self) -> LabelView {
        LabelView {
            socket: self.socket@,
            proc_dir: self.proc_dir@,
            dry_run: self.dry_run,
            seconds: self.seconds,
        }
    }
}

pub open spec fn default_label() -> LabelView {
    LabelView {
        socket: DEFAULT_SOCKET@,
        proc_dir: DEFAULT_PROC_DIR@,
        dry_run: false,
        seconds: None,
    }
}

/// One flag that takes a value.
pub open spec fn with_value(c: LabelView, flag: Seq<char>, value: Seq<char>) -> Result<
    LabelView,
    Seq<char>,
> {
    if flag == "--socket"@ {
        Ok(LabelView { socket: value, ..c })
    } else if flag == "--proc-dir"@ {
        Ok(LabelView { proc_dir: value, ..c })
    } else {
        match parse_dec(value, u64::MAX as nat) {
            Some(n) => Ok(LabelView { seconds: Some(n as u64), ..c }),
            None => Err("--seconds не число: "@ + number_fault(value, u64::MAX as nat)),
        }
    }
}

/// What the arguments say, read from the left; a later flag overrides an earlier one.
pub open spec fn label_of(args: Seq<Seq<char>>, c: LabelView) -> Result<LabelView, Seq<char>>
    decreases args.len(),
{
    if args.len() == 0 {
        Ok(c)
    } else if args[0] == "--dry-run"@ {
        label_of(args.skip(1), LabelView { dry_run: true, ..c })
    } else if args[0] != "--socket"@ && args[0] != "--proc-dir"@ && args[0] != "--seconds"@ {
        Err("неизвестный аргумент "@ + args[0])
    } else if args.len() == 1 {
        Err(args[0] + " без значения"@)
    } else {
        match with_value(c, args[0], args[1]) {
            Ok(d) => label_of(args.skip(2), d),
            Err(e) => Err(e),
        }
    }
}

/// Reads the arguments of the strip.
pub fn label_args(args: &Vec<String>) -> (r: Result<LabelConfig, String>)
    ensures
        match (r, label_of(texts(args@), default_label())) {
            (Ok(c), Ok(d)) => c@ == d,
            (Err(m), Err(words)) => m@ == words,
            _ => false,
        },
{
    let ghost all = texts(args@);
    let mut c = LabelConfig {
        socket: DEFAULT_SOCKET.to_owned(),
        proc_dir: DEFAULT_PROC_DIR.to_owned(),
        dry_run: false,
        seconds: None,
    };
    assert(all.skip(0) =~= all);
    let mut i: usize = 0;
    while i < args.len()
        invariant
            i <= args@.len(),
            all == texts(args@),
            label_of(all.skip(i as int), c@) == label_of(all, default_label()),
        decreases args@.len() - i,
    {
        let arg = args[i].as_str();
        let ghost rest = all.skip(i as int);
        let ghost before = c@;
        assert(rest[0] == arg@);
        if str_equal(arg, "--dry-run") {
            c.dry_run = true;
            assert(c@ == (LabelView { dry_run: true, ..before }));
            assert(rest.skip(1) =~= all.skip(i + 1));
            i = i + 1;
        } else {
            let is_socket = str_equal(arg, "--socket");
            let is_proc = str_equal(arg, "--proc-dir");
            if !(is_socket || is_proc || str_equal(arg, "--seconds")) {
                return Err("неизвестный аргумент ".to_owned().concat(arg));
            }
            if i + 1 >= args.len() {
                return Err(arg.to_owned().concat(" без значения"));
            }
            let value = &args[i + 1];
            assert(rest[1] == value@);
            if is_socket {
                c.socket = value.clone();
            } else if is_proc {
                c.proc_dir = value.clone();
            } else {
                match chars_to_u64(&chars_of(value.as_str()), u64::MAX) {
                    Some(n) => {
                        c.seconds = Some(n);
                    },
                    None => {
                        let fault = why_no_number(&chars_of(value.as_str()), u64::MAX);
                        return Err("--seconds не число: ".to_owned().concat(fault.as_str()));
                    },
                }
            }
            assert(with_value(before, rest[0], rest[1]) == Ok::<LabelView, Seq<char>>(c@));
            assert(rest.skip(2) =~= all.skip(i + 2));
            i = i + 2;
        }
    }
    assert(all.skip(i as int) =~= seq![]);
    Ok(c)
}

// ---------------------------------------------------------------------------------------------
// What the daemon lists
// ---------------------------------------------------------------------------------------------

pub open spec fn missing_field(name: Seq<char>) -> Seq<char> {
    "спейс без поля "@ + name
}

/// A space of the list; the first field that is missing decides.
pub open spec fn info_in(item: JsonView) -> Result<InfoView, Seq<char>> {
    let id = as_str(get(item, "id"@));
    let color = as_str(get(item, "color"@));
    let level = as_str(get(item, "isolation-level"@));
    let state = as_str(get(item, "state"@));
    if id is None {
        Err(missing_field("id"@))
    } else if color is None {
        Err(missing_field("color"@))
    } else if level is None {
        Err(missing_field("isolation-level"@))
    } else if state is None {
        Err(missing_field("state"@))
    } else {
        Ok(InfoView { id: id->0, color: color->0, level: level->0, state: state->0 })
    }
}

/// The spaces of a list; the first that cannot be read decides.
pub open spec fn infos_in(items: Seq<JsonView>) -> Result<Seq<InfoView>, Seq<char>>
    decreases items.len(),
{
    if items.len() == 0 {
        Ok(seq![])
    } else {
        match infos_in(items.drop_last()) {
            Err(e) => Err(e),
            Ok(front) => match info_in(items.last()) {
                Err(e) => Err(e),
                Ok(info) => Ok(front.push(info)),
            },
        }
    }
}

/// The spaces that an answer of the daemon lists, or the words for why there are none.
pub open spec fn listed(reply: Result<JsonView, Seq<char>>) -> Result<Seq<InfoView>, Seq<char>> {
    match reply {
        Err(e) => Err(e),
        Ok(v) => match as_array(Some(v)) {
            None => Err("list вернул не массив"@),
            Some(items) => infos_in(items),
        },
    }
}

/// The outcome is the one that is stated.
pub open spec fn lists(
    r: Result<Vec<SpaceInfo>, String>,
    want: Result<Seq<InfoView>, Seq<char>>,
) -> bool {
    match (r, want) {
        (Ok(spaces), Ok(views)) => info_views(spaces@) == views,
        (Err(m), Err(words)) => m@ == words,
        _ => false,
    }
}

fn field_of(item: &Json, name: &str) -> (r: Result<String, String>)
    ensures
        match (r, as_str(get(item@, name@))) {
            (Ok(s), Some(v)) => s@ == v,
            (Err(m), None) => m@ == missing_field(name@),
            _ => false,
        },
{
    match str_of(item.get(name)) {
        Some(s) => Ok(s),
        None => Err("спейс без поля ".to_owned().concat(name)),
    }
}

fn info_from(item: &Json) -> (r: Result<SpaceInfo, String>)
    ensures
        match (r, info_in(item@)) {
            (Ok(s), Ok(v)) => s@ == v,
            (Err(m), Err(e)) => m@ == e,
            _ => false,
        },
{
    let id = field_of(item, "id")?;
    let color = field_of(item, "color")?;
    let level = field_of(item, "isolation-level")?;
    let state = field_of(item, "state")?;
    Ok(SpaceInfo { id, color, level, state })
}

proof fn lemma_infos_error(items: Seq<JsonView>, k: int)
    requires
        0 <= k <= items.len(),
        infos_in(items.take(k)) is Err,
    ensures
        infos_in(items) == infos_in(items.take(k)),
    decreases items.len() - k,
{
    if k < items.len() {
        assert(items.take(k + 1).drop_last() =~= items.take(k));
        lemma_infos_error(items, k + 1);
    } else {
        assert(items.take(k) =~= items);
    }
}

/// The spaces that the daemon lists. A list that cannot be read is no empty list: that would call
/// every window of a space unknown.
pub fn spaces_from_daemon(reply: Result<Reply, String>) -> (r: Result<Vec<SpaceInfo>, String>)
    ensures
        lists(r, listed(answer(reply))),
{
    let data = match reply_to_value(reply) {
        Ok(v) => v,
        Err(e) => {
            return Err(e);
        },
    };
    let items = match array_of(Some(&data)) {
        Some(items) => items,
        None => {
            return Err("list вернул не массив".to_owned());
        },
    };
    let ghost all = items_view(items@);
    let mut out: Vec<SpaceInfo> = Vec::new();
    assert(all.take(0) =~= seq![]);
    assert(info_views(out@) =~= seq![]);
    for i in 0..items.len()
        invariant
            all == items_view(items@),
            listed(answer(reply)) == infos_in(all),
            infos_in(all.take(i as int)) == Ok::<Seq<InfoView>, Seq<char>>(info_views(out@)),
    {
        assert(all.take(i + 1).drop_last() =~= all.take(i as int));
        assert(all.take(i + 1).last() == items@[i as int]@);
        match info_from(&items[i]) {
            Ok(info) => {
                let ghost before = info_views(out@);
                out.push(info);
                assert(info_views(out@) =~= before.push(info@));
            },
            Err(e) => {
                proof {
                    lemma_infos_error(all, i + 1);
                }
                return Err(e);
            },
        }
    }
    assert(all.take(items@.len() as int) =~= all);
    Ok(out)
}

// ---------------------------------------------------------------------------------------------
// What is shown
// ---------------------------------------------------------------------------------------------

pub open spec fn focus_of(m: MapView) -> FocusView {
    match m.focus {
        FocusId::Unknown => FocusView::Unknown,
        _ => match focused_window(m) {
            Some(w) => FocusView::Window(w),
            None => FocusView::Absent,
        },
    }
}

/// The strip in words.
pub open spec fn strip_words(strip: StripView) -> Seq<char> {
    match strip {
        StripView::Host => "STRIP host"@,
        StripView::Space { id, color, level } => "STRIP space "@ + id + " "@ + color + " "@ + level,
        StripView::Orphan { id } => "STRIP orphan "@ + id,
        StripView::Unknown { id } => "STRIP unknown "@ + id,
        StripView::Unverified { claimed } => "STRIP unverified "@ + claimed,
        StripView::FocusUnknown => "STRIP focus-unknown"@,
    }
}

/// The strip in words, or that the daemon did not answer.
pub open spec fn rendered(
    m: MapView,
    cgroup: Option<Seq<char>>,
    spaces: Result<Seq<InfoView>, Seq<char>>,
) -> Seq<char> {
    match spaces {
        Err(e) => "STRIP daemon-error "@ + e,
        Ok(infos) => strip_words(strip_of(focus_of(m), cgroup, infos)),
    }
}

pub open spec fn infos_or_error(spaces: Result<Vec<SpaceInfo>, String>) -> Result<
    Seq<InfoView>,
    Seq<char>,
> {
    match spaces {
        Ok(v) => Ok(info_views(v@)),
        Err(e) => Err(e@),
    }
}

/// The strip in words. `cgroup` is what was read of the control group of the focused window.
pub fn render(
    map: &WindowMap,
    cgroup: &Option<String>,
    spaces: &Result<Vec<SpaceInfo>, String>,
) -> (r: String)
    ensures
        r@ == rendered(map@, opt_text(*cgroup), infos_or_error(*spaces)),
{
    let spaces = match spaces {
        Ok(spaces) => spaces,
        Err(e) => {
            return "STRIP daemon-error ".to_owned().concat(e.as_str());
        },
    };
    let strip = strip_for(map.focus(), cgroup, spaces);
    match &strip {
        Strip::Host => "STRIP host".to_owned(),
        Strip::Space { id, color, level } => "STRIP space ".to_owned().concat(id.as_str()).concat(
            " ",
        ).concat(color.as_str()).concat(" ").concat(level.as_str()),
        Strip::Orphan { id } => "STRIP orphan ".to_owned().concat(id.as_str()),
        Strip::Unknown { id } => "STRIP unknown ".to_owned().concat(id.as_str()),
        Strip::Unverified { claimed } => "STRIP unverified ".to_owned().concat(claimed.as_str()),
        Strip::FocusUnknown => "STRIP focus-unknown".to_owned(),
    }
}

/// What the strip shows, or that the daemon did not answer, in its own words.
pub open spec fn shown(
    m: MapView,
    cgroup: Option<Seq<char>>,
    spaces: Result<Seq<InfoView>, Seq<char>>,
) -> BarView {
    match spaces {
        Err(e) => BarView { text: e, background: DAEMON_ERROR_BACKGROUND, foreground: WHITE },
        Ok(infos) => content_of(strip_of(focus_of(m), cgroup, infos)),
    }
}

pub fn compute_content(
    map: &WindowMap,
    cgroup: &Option<String>,
    spaces: &Result<Vec<SpaceInfo>, String>,
) -> (r: BarContent)
    ensures
        r@ == shown(map@, opt_text(*cgroup), infos_or_error(*spaces)),
{
    match spaces {
        Ok(spaces) => {
            let strip = strip_for(map.focus(), cgroup, spaces);
            bar_content(&strip)
        },
        Err(e) => BarContent {
            text: e.clone(),
            background: DAEMON_ERROR_BACKGROUND,
            foreground: WHITE,
        },
    }
}

// ---------------------------------------------------------------------------------------------
// Events
// ---------------------------------------------------------------------------------------------

/// What came of a line of the stream of events.
pub enum LineOutcome {
    /// The line is blank.
    Skipped,
    /// The line cannot be read; the windows stay as they are.
    Complaint(String),
    /// The windows have been brought up to date.
    Applied,
}

/// What is known in a session: the windows, and what the strips show.
pub struct Session {
    pub map: WindowMap,
    pub last_content: Option<BarContent>,
}

pub open spec fn opt_bar(content: Option<BarContent>) -> Option<BarView> {
    match content {
        Some(c) => Some(c@),
        None => None,
    }
}

/// What a line of the stream makes of the windows.
pub open spec fn line_applied(m: MapView, line: Seq<char>) -> MapView {
    if trim(line).len() == 0 {
        m
    } else {
        match json_value(line) {
            Some(v) => match event_in(v) {
                Ok(event) => applied(m, event),
                Err(_) => m,
            },
            None => m,
        }
    }
}

/// Brings windows up to date by an event that has been read, or tells what is wrong with it.
pub fn apply_parsed(map: &mut WindowMap, parsed: Result<Event, String>) -> (r: LineOutcome)
    ensures
        match parsed {
            Ok(event) => r is Applied && final(map)@ == applied(old(map)@, event@),
            Err(e) => r == LineOutcome::Complaint(e) && final(map)@ == old(map)@,
        },
{
    match parsed {
        Ok(event) => {
            map.apply(event);
            LineOutcome::Applied
        },
        Err(e) => LineOutcome::Complaint(e),
    }
}

/// Brings windows up to date by a line of the stream.
pub fn apply_line(map: &mut WindowMap, line: &str) -> (r: LineOutcome)
    ensures
        final(map)@ == line_applied(old(map)@, line@),
        r is Skipped <==> trim(line@).len() == 0,
        r is Applied <==> trim(line@).len() > 0 && json_value(line@) is Some && event_in(
            json_value(line@)->0,
        ) is Ok,
        r matches LineOutcome::Complaint(m) ==> m@ == (match json_value(line@) {
            Some(v) => event_in(v)->Err_0,
            None => "строка события не является JSON: "@ + json_fault(line@),
        }),
{
    let rest = chars_of(str_trim(line).as_str());
    if rest.len() == 0 {
        return LineOutcome::Skipped;
    }
    apply_parsed(map, parse_event(line))
}

fn same_content(a: &BarContent, b: &BarContent) -> (r: bool)
    ensures
        r == (a@ == b@),
{
    a.background == b.background && a.foreground == b.foreground && str_equal(
        a.text.as_str(),
        b.text.as_str(),
    )
}

impl Session {
    pub fn new() -> (r: Session)
        ensures
            r.map@ == crate::label::niri::no_windows(),
            r.last_content is None,
    {
        Session { map: Default::default(), last_content: None }
    }

    /// Takes note of what is to be shown, and says whether the strips have to be drawn again: they
    /// do if it is not what they show.
    pub fn maybe_redraw(&mut self, content: BarContent) -> (r: bool)
        ensures
            final(self).map == old(self).map,
            opt_bar(final(self).last_content) == Some(content@),
            r == (opt_bar(old(self).last_content) != Some(content@)),
    {
        if let Some(last) = &self.last_content {
            if same_content(last, &content) {
                return false;
            }
        }
        self.last_content = Some(content);
        true
    }
}

/// What a trial run prints: what the strip says in words, where it has changed.
pub fn print_if_changed(last: &mut String, current: String) -> (r: bool)
    ensures
        final(last)@ == current@,
        r == (old(last)@ != current@),
{
    if str_equal(last.as_str(), current.as_str()) {
        return false;
    }
    *last = current;
    true
}

// ---------------------------------------------------------------------------------------------
// Drawing
// ---------------------------------------------------------------------------------------------

/// The size of a strip, and whether the compositor has yet to agree to one.
#[derive(Debug, Clone, Copy, PartialEq, Eq, Structural)]
pub struct BarSize {
    pub width: u32,
    pub height: u32,
    pub first_configure: bool,
}

/// A new strip, before the compositor has said anything of its size.
pub fn new_bar_size() -> (r: BarSize)
    ensures
        r == (BarSize {
            width: INITIAL_WIDTH_GUESS,
            height: BAR_HEIGHT,
            first_configure: true,
        }),
{
    BarSize { width: INITIAL_WIDTH_GUESS, height: BAR_HEIGHT, first_configure: true }
}

/// The size that the compositor gives; zero leaves it to the strip. The strip is drawn the first
/// time that it has one.
pub fn configured(size: BarSize, width: u32, height: u32) -> (r: (BarSize, bool))
    ensures
        r.0 == (BarSize {
            width: if width != 0 {
                width
            } else {
                size.width
            },
            height: if height != 0 {
                height
            } else {
                BAR_HEIGHT
            },
            first_configure: false,
        }),
        r.1 == size.first_configure,
{
    let w: u32 = if width != 0 {
        width
    } else {
        size.width
    };
    let h: u32 = if height != 0 {
        height
    } else {
        BAR_HEIGHT
    };
    (BarSize { width: w, height: h, first_configure: false }, size.first_configure)
}

/// How wide the text of a strip may be.
pub open spec fn text_room(width: nat) -> nat {
    if width >= 2 * TEXT_MARGIN {
        (width - 2 * TEXT_MARGIN) as nat
    } else {
        0
    }
}

/// The picture of a strip: its text, cut to what fits, on its background.
pub open spec fn picture(content: BarView, width: nat, height: nat) -> Seq<u32> {
    with_text(
        Seq::new(width * height, |i: int| content.background),
        width as int,
        height as int,
        TEXT_MARGIN as int,
        TEXT_TOP as int,
        fitted(content.text, text_room(width)),
        content.foreground,
    )
}

/// Draws the picture of a strip.
pub fn bar_pixels(content: &BarContent, width: u32, height: u32) -> (r: Vec<u32>)
    requires
        width * height <= u32::MAX,
    ensures
        r@ == picture(content@, width as nat, height as nat),
{
    let size: u32 = width * height;
    let mut pixels: Vec<u32> = Vec::new();
    for i in 0..size
        invariant
            pixels@ == Seq::new(i as nat, |k: int| content.background),
    {
        pixels.push(content.background);
        assert(pixels@ =~= Seq::new((i + 1) as nat, |k: int| content.background));
    }
    let room: usize = if width as usize >= 2 * TEXT_MARGIN {
        width as usize - 2 * TEXT_MARGIN
    } else {
        0
    };
    let text = fit_text(content.text.as_str(), room);
    proof {
        fitted_text_fits(content.text@, room as nat);
    }
    draw_text(
        &mut pixels,
        width as usize,
        height as usize,
        TEXT_MARGIN,
        TEXT_TOP,
        text.as_str(),
        content.foreground,
    );
    pixels
}

/// The ends of a strip show its background alone, however long the text is.
pub proof fn the_margins_stay_clear(content: BarView, width: nat, height: nat, i: int)
    requires
        width > 0,
        0 <= i < width * height,
        i % (width as int) < TEXT_MARGIN || i % (width as int) >= width - TEXT_MARGIN,
    ensures
        picture(content, width, height)[i] == content.background,
{
    let text = fitted(content.text, text_room(width));
    fitted_text_fits(content.text, text_room(width));
    let plain = Seq::new(width * height, |k: int| content.background);
    drawing_stays_inside(
        plain,
        width as int,
        height as int,
        TEXT_MARGIN as int,
        TEXT_TOP as int,
        text,
        content.foreground,
    );
    assert(plain[i] == content.background);
}

/// The text of a strip begins at its left margin and below its upper one, with the letters side by
/// side; every other pixel shows the background.
pub proof fn the_text_begins_at_the_margin(
    content: BarView,
    width: nat,
    height: nat,
    px: int,
    py: int,
)
    requires
        0 <= px < width,
        0 <= py < height,
    ensures
        ({
            let text = fitted(content.text, text_room(width));
            let at = (px - 8) / 10;
            picture(content, width, height)[py * width + px] == (if 2 <= py < 22 && 8 <= px && at
                < text.len() && pixel(drawn_dots(text[at]), py - 2, (px - 8) % 10) {
                content.foreground
            } else {
                content.background
            })
        }),
{
    lemma_pixel_index(width as int, height as int, px, py);
    assert(py * width == py * width as int);
    assert(width * height == width as int * height as int) by (nonlinear_arith);
}

/// That the daemon does not answer never looks like the host, nor like a window that is not as it
/// should be.
pub proof fn silence_is_shown(
    m: MapView,
    cgroup: Option<Seq<char>>,
    words: Seq<char>,
    strip: StripView,
)
    requires
        !(strip is Space),
    ensures
        shown(m, cgroup, Err(words)).text == words,
        shown(m, cgroup, Err(words)).background != content_of(strip).background,
{
}

} // verus!
