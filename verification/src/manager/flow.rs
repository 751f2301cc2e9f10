//! The requests of the manager's window that are on their way. Each kind of read is on its way
//! once at most, and each request has a number of its own.
use crate::manager::request::{Request, RequestView};
use crate::text::{opt_text, str_equal};
use vstd::prelude::*;

verus! {

pub struct Flow {
    /// The window has been closed.
    pub closed: bool,
    /// The daemon has answered the last list.
    pub connected: bool,
    /// The last number that was given to a request.
    pub next_id: u64,
    /// The requests that are to be sent, with their numbers.
    pub outbox: Vec<(u64, Request)>,
    /// The reads that are on their way; zero means none.
    pub latest_list: u64,
    pub latest_detail: u64,
    pub latest_net: u64,
    pub latest_profiles: u64,
    /// What is on its way is out of date, and is asked for again.
    pub list_again: bool,
    pub profiles_again: bool,
    /// Which space is being described, and for which selection.
    pub detail_request: Option<(String, u64)>,
    /// The number of the selection.
    pub epoch: u64,
}

pub struct FlowView {
    pub closed: bool,
    pub connected: bool,
    pub next_id: nat,
    pub outbox: Seq<(nat, RequestView)>,
    pub latest_list: nat,
    pub latest_detail: nat,
    pub latest_net: nat,
    pub latest_profiles: nat,
    pub list_again: bool,
    pub profiles_again: bool,
    pub detail_request: Option<(Seq<char>, nat)>,
    pub epoch: nat,
}

pub open spec fn outbox_view(outbox: Seq<(u64, Request)>) -> Seq<(nat, RequestView)> {
    outbox.map_values(|m: (u64, Request)| (m.0 as nat, m.1@))
}

impl View for Flow {
    type V = FlowView;

    open spec fn view(&self) -> FlowView {
        FlowView {
            closed: self.closed,
            connected: self.connected,
            next_id: self.next_id as nat,
            outbox: outbox_view(self.outbox@),
            latest_list: self.latest_list as nat,
            latest_detail: self.latest_detail as nat,
            latest_net: self.latest_net as nat,
            latest_profiles: self.latest_profiles as nat,
            list_again: self.list_again,
            profiles_again: self.profiles_again,
            detail_request: match self.detail_request {
                Some(d) => Some((d.0@, d.1 as nat)),
                None => None,
            },
            epoch: self.epoch as nat,
        }
    }
}

/// There are still as many numbers for requests and selections.
pub open spec fn room(s: FlowView, n: nat) -> bool {
    s.next_id + n <= u64::MAX && s.epoch + n <= u64::MAX
}

pub open spec fn no_requests() -> FlowView {
    FlowView {
        closed: false,
        connected: false,
        next_id: 0,
        outbox: seq![],
        latest_list: 0,
        latest_detail: 0,
        latest_net: 0,
        latest_profiles: 0,
        list_again: false,
        profiles_again: false,
        detail_request: None,
        epoch: 0,
    }
}

/// A request under the next number.
pub open spec fn sent(s: FlowView, r: RequestView) -> FlowView {
    FlowView { next_id: s.next_id + 1, outbox: s.outbox.push((s.next_id + 1, r)), ..s }
}

pub open spec fn list_refreshed(s: FlowView) -> FlowView {
    if s.closed || s.latest_list != 0 {
        s
    } else {
        FlowView { latest_list: s.next_id + 1, ..sent(s, RequestView::List) }
    }
}

pub open spec fn detail_refreshed(s: FlowView, space: Seq<char>) -> FlowView {
    if s.closed || !s.connected || s.latest_detail != 0 {
        s
    } else {
        FlowView {
            latest_detail: s.next_id + 1,
            detail_request: Some((space, s.epoch)),
            ..sent(s, RequestView::Describe { space })
        }
    }
}

pub open spec fn net_refreshed(s: FlowView) -> FlowView {
    if s.closed || s.latest_net != 0 {
        s
    } else {
        FlowView { latest_net: s.next_id + 1, ..sent(s, RequestView::NetStatus) }
    }
}

pub open spec fn profiles_requested(s: FlowView) -> FlowView {
    if s.closed || s.latest_profiles != 0 {
        s
    } else {
        FlowView { latest_profiles: s.next_id + 1, ..sent(s, RequestView::Profiles) }
    }
}

/// The selected space is described, if there is one.
pub open spec fn selected_refreshed(s: FlowView, selected: Option<Seq<char>>) -> FlowView {
    match selected {
        Some(id) => detail_refreshed(s, id),
        None => s,
    }
}

/// The list may have changed: one that is on its way is asked for again.
pub open spec fn list_invalidated(s: FlowView) -> FlowView {
    if s.latest_list != 0 {
        FlowView { list_again: true, ..s }
    } else {
        list_refreshed(s)
    }
}

pub open spec fn profiles_invalidated(s: FlowView) -> FlowView {
    if s.latest_profiles != 0 {
        FlowView { profiles_again: true, ..s }
    } else {
        profiles_requested(s)
    }
}

/// All that is shown may have changed by an operation.
pub open spec fn invalidated(s: FlowView, selected: Option<Seq<char>>) -> FlowView {
    profiles_invalidated(
        selected_refreshed(
            list_invalidated(FlowView { epoch: s.epoch + 1, ..s }),
            selected,
        ),
    )
}

/// A description counts only for the space that is selected, and for the selection for which it
/// was asked.
pub open spec fn is_current(s: FlowView, selected: Option<Seq<char>>) -> bool {
    s.detail_request matches Some(d) && selected == Some(d.0) && d.1 == s.epoch
}

impl Flow {
    pub fn new() -> (r: Flow)
        ensures
            r@ == no_requests(),
    {
        let r = Flow {
            closed: false,
            connected: false,
            next_id: 0,
            outbox: Vec::new(),
            latest_list: 0,
            latest_detail: 0,
            latest_net: 0,
            latest_profiles: 0,
            list_again: false,
            profiles_again: false,
            detail_request: None,
            epoch: 0,
        };
        assert(outbox_view(r.outbox@) =~= seq![]);
        r
    }

    /// Sends a request under the next number.
    pub fn send(&mut self, request: Request) -> (id: u64)
        requires
            old(self)@.next_id < u64::MAX,
        ensures
            final(self)@ == sent(old(self)@, request@),
            id == old(self)@.next_id + 1,
    {
        let id: u64 = self.next_id + 1;
        self.next_id = id;
        let ghost before = outbox_view(self.outbox@);
        self.outbox.push((id, request));
        assert(outbox_view(self.outbox@) =~= before.push((id as nat, request@)));
        id
    }

    /// Takes the requests that are to be sent.
    pub fn take_outbox(&mut self) -> (r: Vec<(u64, Request)>)
        ensures
            outbox_view(r@) == old(self)@.outbox,
            final(self)@ == (FlowView { outbox: seq![], ..old(self)@ }),
    {
        let mut out: Vec<(u64, Request)> = Vec::new();
        std::mem::swap(&mut self.outbox, &mut out);
        assert(outbox_view(self.outbox@) =~= seq![]);
        out
    }

    pub fn refresh_list(&mut self)
        requires
            old(self)@.next_id < u64::MAX,
        ensures
            final(self)@ == list_refreshed(old(self)@),
    {
        if self.closed || self.latest_list != 0 {
            return;
        }
        let id: u64 = self.send(Request::List);
        self.latest_list = id;
    }

    pub fn refresh_detail(&mut self, space: String)
        requires
            old(self)@.next_id < u64::MAX,
        ensures
            final(self)@ == detail_refreshed(old(self)@, space@),
    {
        if self.closed || !self.connected || self.latest_detail != 0 {
            return;
        }
        let id: u64 = self.send(Request::Describe { space: space.clone() });
        self.latest_detail = id;
        self.detail_request = Some((space, self.epoch));
    }

    pub fn refresh_net(&mut self)
        requires
            old(self)@.next_id < u64::MAX,
        ensures
            final(self)@ == net_refreshed(old(self)@),
    {
        if self.closed || self.latest_net != 0 {
            return;
        }
        let id: u64 = self.send(Request::NetStatus);
        self.latest_net = id;
    }

    pub fn request_profiles(&mut self)
        requires
            old(self)@.next_id < u64::MAX,
        ensures
            final(self)@ == profiles_requested(old(self)@),
    {
        if self.closed || self.latest_profiles != 0 {
            return;
        }
        let id: u64 = self.send(Request::Profiles);
        self.latest_profiles = id;
    }

    pub fn refresh_selected(&mut self, selected: &Option<String>)
        requires
            old(self)@.next_id < u64::MAX,
        ensures
            final(self)@ == selected_refreshed(old(self)@, opt_text(*selected)),
    {
        if let Some(id) = selected {
            self.refresh_detail(id.clone());
        }
    }

    fn invalidate_list(&mut self)
        requires
            old(self)@.next_id < u64::MAX,
        ensures
            final(self)@ == list_invalidated(old(self)@),
    {
        if self.latest_list != 0 {
            self.list_again = true;
        } else {
            self.refresh_list();
        }
    }

    fn invalidate_profiles(&mut self)
        requires
            old(self)@.next_id < u64::MAX,
        ensures
            final(self)@ == profiles_invalidated(old(self)@),
    {
        if self.latest_profiles != 0 {
            self.profiles_again = true;
        } else {
            self.request_profiles();
        }
    }

    /// Reads all that is shown anew.
    pub fn invalidate(&mut self, selected: &Option<String>)
        requires
            room(old(self)@, 3),
        ensures
            final(self)@ == invalidated(old(self)@, opt_text(*selected)),
    {
        self.epoch = self.epoch + 1;
        self.invalidate_list();
        self.refresh_selected(selected);
        self.invalidate_profiles();
    }

    /// Whether the description that is on its way is of the selection.
    pub fn detail_is_current(&self, selected: &Option<String>) -> (r: bool)
        ensures
            r == is_current(self@, opt_text(*selected)),
    {
        match (&self.detail_request, selected) {
            (Some(d), Some(id)) => d.1 == self.epoch && str_equal(d.0.as_str(), id.as_str()),
            _ => false,
        }
    }
}

} // verus!
