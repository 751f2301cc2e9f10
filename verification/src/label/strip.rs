//! To whom the focused window belongs.
use crate::label::niri::{Focus, WindowView};
use crate::label::space::{
    cgroup_answer, space_from_title, space_of_pid, title_space, CgroupSpace, CgroupView,
};
use crate::text::{opt_text, str_equal};
use vstd::prelude::*;

verus! {

/// A space as the daemon lists it.
#[derive(Debug, Clone, PartialEq, Eq)]
pub struct SpaceInfo {
    pub id: String,
    pub color: String,
    pub level: String,
    pub state: String,
}

#[verifier::ext_equal]
pub struct InfoView {
    pub id: Seq<char>,
    pub color: Seq<char>,
    pub level: Seq<char>,
    pub state: Seq<char>,
}

impl View for SpaceInfo {
    type V = InfoView;

    open spec fn view(&self) -> InfoView {
        InfoView { id: self.id@, color: self.color@, level: self.level@, state: self.state@ }
    }
}

pub open spec fn info_views(spaces: Seq<SpaceInfo>) -> Seq<InfoView> {
    spaces.map_values(|s: SpaceInfo| s@)
}

#[derive(Debug, Clone, PartialEq, Eq)]
pub enum Strip {
    Host,
    Space { id: String, color: String, level: String },
    /// A window of a space that does not run.
    Orphan { id: String },
    /// A window of a space that the daemon does not know.
    Unknown { id: String },
    /// The title names a space, and nothing could be read that bears it out.
    Unverified { claimed: String },
    /// Nothing has been heard of the focus so far.
    FocusUnknown,
}

pub enum StripView {
    Host,
    Space { id: Seq<char>, color: Seq<char>, level: Seq<char> },
    Orphan { id: Seq<char> },
    Unknown { id: Seq<char> },
    Unverified { claimed: Seq<char> },
    FocusUnknown,
}

impl View for Strip {
    type V = StripView;

    open spec fn view(&self) -> StripView {
        match *self {
            Strip::Host => StripView::Host,
            Strip::Space { id, color, level } => StripView::Space {
                id: id@,
                color: color@,
                level: level@,
            },
            Strip::Orphan { id } => StripView::Orphan { id: id@ },
            Strip::Unknown { id } => StripView::Unknown { id: id@ },
            Strip::Unverified { claimed } => StripView::Unverified { claimed: claimed@ },
            Strip::FocusUnknown => StripView::FocusUnknown,
        }
    }
}

/// The first space of a list with an id.
pub open spec fn find_info(spaces: Seq<InfoView>, id: Seq<char>) -> Option<InfoView>
    decreases spaces.len(),
{
    if spaces.len() == 0 {
        None
    } else if spaces[0].id == id {
        Some(spaces[0])
    } else {
        find_info(spaces.skip(1), id)
    }
}

/// What a window of a space is.
pub open spec fn resolved(id: Seq<char>, spaces: Seq<InfoView>) -> StripView {
    match find_info(spaces, id) {
        Some(info) => if info.state == "running"@ || info.state == "unresponsive"@ {
            StripView::Space { id: info.id, color: info.color, level: info.level }
        } else {
            StripView::Orphan { id }
        },
        None => StripView::Unknown { id },
    }
}

pub fn resolve(space_id: &str, spaces: &Vec<SpaceInfo>) -> (r: Strip)
    ensures
        r@ == resolved(space_id@, info_views(spaces@)),
{
    let ghost all = info_views(spaces@);
    assert(all.skip(0) =~= all);
    for i in 0..spaces.len()
        invariant
            all == info_views(spaces@),
            find_info(all.skip(i as int), space_id@) == find_info(all, space_id@),
    {
        let info = &spaces[i];
        assert(all.skip(i as int)[0] == info@);
        assert(all.skip(i as int).skip(1) =~= all.skip(i + 1));
        if str_equal(info.id.as_str(), space_id) {
            if str_equal(info.state.as_str(), "running") || str_equal(
                info.state.as_str(),
                "unresponsive",
            ) {
                return Strip::Space {
                    id: info.id.clone(),
                    color: info.color.clone(),
                    level: info.level.clone(),
                };
            }
            return Strip::Orphan { id: space_id.to_owned() };
        }
    }
    assert(all.skip(spaces@.len() as int) =~= seq![]);
    Strip::Unknown { id: space_id.to_owned() }
}

/// What is focused, without the window that it is kept in.
pub enum FocusView {
    Unknown,
    Absent,
    Window(WindowView),
}

pub open spec fn focus_view(focus: Focus) -> FocusView {
    match focus {
        Focus::Unknown => FocusView::Unknown,
        Focus::Absent => FocusView::Absent,
        Focus::Window(w) => FocusView::Window(w@),
    }
}

/// What a focused window is. The host assigns the control group; the title is where the guest
/// writes too, and it counts only where the control group cannot be read.
pub open spec fn window_strip(
    window: WindowView,
    cgroup: Option<Seq<char>>,
    spaces: Seq<InfoView>,
) -> StripView {
    let answer = if window.pid is Some {
        cgroup_answer(cgroup)
    } else {
        CgroupView::Unreadable
    };
    match answer {
        CgroupView::Space(id) => resolved(id, spaces),
        CgroupView::NotASpace => StripView::Host,
        CgroupView::Unreadable => match title_space(window.title) {
            Some(claimed) => StripView::Unverified { claimed },
            None => StripView::Host,
        },
    }
}

pub open spec fn strip_of(
    focus: FocusView,
    cgroup: Option<Seq<char>>,
    spaces: Seq<InfoView>,
) -> StripView {
    match focus {
        FocusView::Unknown => StripView::FocusUnknown,
        FocusView::Absent => StripView::Host,
        FocusView::Window(window) => window_strip(window, cgroup, spaces),
    }
}

/// To whom the focused window belongs. `cgroup` is what was read of the control group of its
/// process.
pub fn strip_for(focus: Focus, cgroup: &Option<String>, spaces: &Vec<SpaceInfo>) -> (r: Strip)
    ensures
        r@ == strip_of(focus_view(focus), opt_text(*cgroup), info_views(spaces@)),
{
    let window = match focus {
        Focus::Unknown => {
            return Strip::FocusUnknown;
        },
        Focus::Absent => {
            return Strip::Host;
        },
        Focus::Window(window) => window,
    };
    let by_cgroup = match window.pid {
        Some(_) => space_of_pid(cgroup),
        None => CgroupSpace::Unreadable,
    };
    match by_cgroup {
        CgroupSpace::Space(id) => {
            return resolve(id.as_str(), spaces);
        },
        CgroupSpace::NotASpace => {
            return Strip::Host;
        },
        CgroupSpace::Unreadable => {},
    }
    match space_from_title(window.title.as_str()) {
        Some(claimed) => Strip::Unverified { claimed },
        None => Strip::Host,
    }
}

/// Where the control group of a process can be read, no title changes what the strip says: a
/// window cannot rename itself into a space, nor out of one.
pub proof fn a_title_cannot_forge(
    a: WindowView,
    b: WindowView,
    cgroup: Seq<char>,
    spaces: Seq<InfoView>,
)
    requires
        a.pid is Some,
        b.pid is Some,
    ensures
        window_strip(a, Some(cgroup), spaces) == window_strip(b, Some(cgroup), spaces),
        !(window_strip(a, Some(cgroup), spaces) is Unverified),
{
}

/// The strip names a space only on the word of the host: for a focused window whose control group
/// could be read, and which names a space that the daemon lists as running or unresponsive.
pub proof fn a_space_is_vouched_for(
    focus: FocusView,
    cgroup: Option<Seq<char>>,
    spaces: Seq<InfoView>,
)
    requires
        strip_of(focus, cgroup, spaces) is Space,
    ensures
        focus is Window,
        focus->Window_0.pid is Some,
        cgroup is Some,
        cgroup_answer(cgroup) == CgroupView::Space(strip_of(focus, cgroup, spaces)->Space_id),
        exists|i: int|
            {
                &&& 0 <= i < spaces.len()
                &&& (#[trigger] spaces[i]).id == strip_of(focus, cgroup, spaces)->Space_id
                &&& spaces[i].state == "running"@ || spaces[i].state == "unresponsive"@
            },
{
    let id = cgroup_answer(cgroup)->Space_0;
    lemma_find_info(spaces, id);
}

proof fn lemma_find_info(spaces: Seq<InfoView>, id: Seq<char>)
    ensures
        find_info(spaces, id) matches Some(info) ==> info.id == id && exists|i: int|
            0 <= i < spaces.len() && #[trigger] spaces[i] == info,
    decreases spaces.len(),
{
    if spaces.len() > 0 {
        if spaces[0].id != id {
            lemma_find_info(spaces.skip(1), id);
            if find_info(spaces.skip(1), id) is Some {
                let info = find_info(spaces.skip(1), id)->0;
                let i = choose|i: int|
                    0 <= i < spaces.skip(1).len() && #[trigger] spaces.skip(1)[i] == info;
                assert(spaces[i + 1] == info);
            }
        }
    }
}

/// That nothing is known of the focus is not shown as the host.
pub proof fn an_unknown_focus_is_not_the_host(cgroup: Option<Seq<char>>, spaces: Seq<InfoView>)
    ensures
        strip_of(FocusView::Unknown, cgroup, spaces) == StripView::FocusUnknown,
        strip_of(FocusView::Absent, cgroup, spaces) == StripView::Host,
{
}

} // verus!
