//! The broker of windows: one proxy per space, kept as long as a connection of the space holds
//! a lease on it.
use crate::daemon::render::{
    entry_rows, load_registry_file, rows_of_document, RegistryEntry, RegistryError, RegistryRow,
};
use crate::paths::{join_path, path_join};
use crate::text::{
    chars_of, dec, number_fault, parse_dec, str_equal, str_to_u32, texts, u32_to_string,
    why_no_number,
};
use crate::toml::toml_read;
use vstd::prelude::*;

verus! {

/// The directory of a space in which its window socket lies.
pub const GUI_SUBDIR: &'static str = "gui";

/// Seconds between two looks at the guests.
pub const DEAD_PROXY_POLL_SECS: u64 = 1;

/// A port on which nobody listens: only whether the guest exists is asked.
pub const LIVENESS_PROBE_PORT: u32 = 0xffff;

/// The error number of a guest that does not exist.
pub const ENODEV: i32 = 19;

/// How often, and how many milliseconds apart, the socket of a new proxy is looked for.
pub const SOCKET_POLLS: u32 = 100;

pub const SOCKET_POLL_MILLIS: u64 = 50;

pub struct BrokerConfig {
    pub run_dir: String,
    pub waypipe: String,
    pub wayland_socket: String,
    pub memory_max_mb: u64,
    pub tasks_max: u64,
    pub cpu_quota_pct: u64,
}

impl BrokerConfig {
    /// The limits of a proxy under a fixed session.
    pub fn for_tests() -> (r: BrokerConfig)
        ensures
            r.run_dir@ == "/run/miyorios"@,
            r.waypipe@ == "/usr/local/lib/miyorios/waypipe"@,
            r.wayland_socket@ == "/run/user/1000/wayland-1"@,
            r.memory_max_mb == 512,
            r.tasks_max == 64,
            r.cpu_quota_pct == 50,
    {
        BrokerConfig {
            run_dir: "/run/miyorios".to_owned(),
            waypipe: "/usr/local/lib/miyorios/waypipe".to_owned(),
            wayland_socket: "/run/user/1000/wayland-1".to_owned(),
            memory_max_mb: 512,
            tasks_max: 64,
            cpu_quota_pct: 50,
        }
    }
}

pub const DEFAULT_REGISTRY: &'static str = "/etc/miyorios/spaces.toml";

/// The port on which the proxies of the guests knock.
pub const DEFAULT_PORT: u32 = 1700;

/// How the broker is told to run.
pub struct GuidConfig {
    pub registry: String,
    pub port: u32,
}

pub struct GuidView {
    pub registry: Seq<char>,
    pub port: u32,
}

impl View for GuidConfig {
    type V = GuidView;

    open spec fn view(&self) -> GuidView {
        GuidView { registry: self.registry@, port: self.port }
    }
}

/// What the arguments say, read from the left.
pub open spec fn guid_of(args: Seq<Seq<char>>, c: GuidView) -> Result<GuidView, Seq<char>>
    decreases args.len(),
{
    if args.len() == 0 {
        Ok(c)
    } else if args[0] == "--registry"@ {
        if args.len() == 1 {
            Err(args[0] + " без значения"@)
        } else {
            guid_of(args.skip(2), GuidView { registry: args[1], ..c })
        }
    } else if args[0] == "--port"@ {
        if args.len() == 1 {
            Err(args[0] + " без значения"@)
        } else {
            match parse_dec(args[1], u32::MAX as nat) {
                Some(n) => guid_of(args.skip(2), GuidView { port: n as u32, ..c }),
                None => Err("--port ожидает число: "@ + number_fault(args[1], u32::MAX as nat)),
            }
        }
    } else {
        Err("неизвестный аргумент "@ + args[0])
    }
}

/// Reads the arguments of the broker.
pub fn guid_args(args: &Vec<String>) -> (r: Result<GuidConfig, String>)
    ensures
        match (
            r,
            guid_of(
                texts(args@),
                GuidView { registry: DEFAULT_REGISTRY@, port: DEFAULT_PORT },
            ),
        ) {
            (Ok(c), Ok(d)) => c@ == d,
            (Err(m), Err(words)) => m@ == words,
            _ => false,
        },
{
    let ghost all = texts(args@);
    let ghost start = GuidView { registry: DEFAULT_REGISTRY@, port: DEFAULT_PORT };
    let mut registry = DEFAULT_REGISTRY.to_owned();
    let mut port: u32 = DEFAULT_PORT;
    assert(all.skip(0) =~= all);
    let mut i: usize = 0;
    while i < args.len()
        invariant
            i <= args@.len(),
            all == texts(args@),
            start == (GuidView { registry: DEFAULT_REGISTRY@, port: DEFAULT_PORT }),
            guid_of(all.skip(i as int), GuidView { registry: registry@, port }) == guid_of(
                all,
                start,
            ),
        decreases args@.len() - i,
    {
        let arg = args[i].as_str();
        let ghost rest = all.skip(i as int);
        assert(rest[0] == arg@);
        let is_registry = str_equal(arg, "--registry");
        if !is_registry && !str_equal(arg, "--port") {
            return Err("неизвестный аргумент ".to_owned().concat(arg));
        }
        if i + 1 >= args.len() {
            return Err(arg.to_owned().concat(" без значения"));
        }
        let value = &args[i + 1];
        assert(rest[1] == value@);
        assert(rest.skip(2) =~= all.skip(i + 2));
        if is_registry {
            registry = value.clone();
        } else {
            match str_to_u32(value.as_str()) {
                Some(n) => {
                    port = n;
                },
                None => {
                    let fault = why_no_number(&chars_of(value.as_str()), u32::MAX as u64);
                    return Err("--port ожидает число: ".to_owned().concat(fault.as_str()));
                },
            }
        }
        i = i + 2;
    }
    assert(all.skip(i as int) =~= seq![]);
    Ok(GuidConfig { registry, port })
}

/// What is said of a guest that is not in the registry; its connection is closed.
pub fn unknown_guest(cid: u32) -> (r: String)
    ensures
        r@ == "отклонено соединение с незарегистрированного CID "@ + dec(cid as nat),
{
    "отклонено соединение с незарегистрированного CID ".to_owned().concat(
        u32_to_string(cid).as_str(),
    )
}

/// Only the number tells a guest that is gone from a port that nobody listens on.
pub fn cid_is_gone(os_error: Option<i32>) -> (r: bool)
    ensures
        r == (os_error == Some(ENODEV)),
{
    match os_error {
        Some(n) => n == ENODEV,
        None => false,
    }
}

/// A directory is private if it is closed to everybody but its owner and its group.
pub fn dir_mode_is_private(mode: u32) -> (r: bool)
    ensures
        r == (mode % 8 == 0),
{
    assert(mode & 7 == mode % 8) by (bit_vector);
    mode & 7 == 0
}

/// A proxy that runs: its leases, its socket and the guest that it serves.
pub struct Proxy {
    pub space_id: String,
    pub leases: usize,
    pub socket: String,
    pub cid: u32,
}

#[verifier::ext_equal]
pub struct ProxyView {
    pub space_id: Seq<char>,
    pub leases: nat,
    pub socket: Seq<char>,
    pub cid: u32,
}

impl View for Proxy {
    type V = ProxyView;

    open spec fn view(&self) -> ProxyView {
        ProxyView {
            space_id: self.space_id@,
            leases: self.leases as nat,
            socket: self.socket@,
            cid: self.cid,
        }
    }
}

pub open spec fn proxy_views(proxies: Seq<Proxy>) -> Seq<ProxyView> {
    proxies.map_values(|p: Proxy| p@)
}

pub struct Broker {
    pub cfg: BrokerConfig,
    pub started: Vec<Proxy>,
}

impl View for Broker {
    type V = Seq<ProxyView>;

    open spec fn view(&self) -> Seq<ProxyView> {
        proxy_views(self.started@)
    }
}

/// Where the proxy of a space stands.
pub open spec fn proxy_index(proxies: Seq<ProxyView>, id: Seq<char>) -> Option<int>
    decreases proxies.len(),
{
    if proxies.len() == 0 {
        None
    } else if proxies[0].space_id == id {
        Some(0)
    } else {
        match proxy_index(proxies.skip(1), id) {
            Some(i) => Some(i + 1),
            None => None,
        }
    }
}

/// The leases on the proxy of a space; none where there is no proxy.
pub open spec fn leases_of(proxies: Seq<ProxyView>, id: Seq<char>) -> nat {
    match proxy_index(proxies, id) {
        Some(i) => proxies[i].leases,
        None => 0,
    }
}

/// No space has two proxies, and a proxy that nobody leases does not run.
pub open spec fn is_sound(proxies: Seq<ProxyView>) -> bool {
    &&& forall|i: int, j: int|
        0 <= i < j < proxies.len() ==> #[trigger] proxies[i].space_id
            != #[trigger] proxies[j].space_id
    &&& forall|i: int| 0 <= i < proxies.len() ==> (#[trigger] proxies[i]).leases > 0
}

pub proof fn lemma_proxy_index(proxies: Seq<ProxyView>, id: Seq<char>)
    ensures
        match proxy_index(proxies, id) {
            Some(i) => 0 <= i < proxies.len() && proxies[i].space_id == id && forall|j: int|
                0 <= j < i ==> (#[trigger] proxies[j]).space_id != id,
            None => forall|j: int| 0 <= j < proxies.len() ==> (#[trigger] proxies[j]).space_id != id,
        },
    decreases proxies.len(),
{
    if proxies.len() > 0 && proxies[0].space_id != id {
        let rest = proxies.skip(1);
        lemma_proxy_index(rest, id);
        assert forall|j: int|
            0 <= j < (match proxy_index(rest, id) {
                Some(i) => i + 1,
                None => proxies.len() as int,
            }) implies (#[trigger] proxies[j]).space_id != id by {
            if j > 0 {
                assert(rest[j - 1].space_id != id);
            }
        }
    }
}

/// A proxy is found where it stands.
proof fn lemma_proxy_index_is(proxies: Seq<ProxyView>, id: Seq<char>, i: int)
    requires
        is_sound(proxies),
        0 <= i < proxies.len(),
        proxies[i].space_id == id,
    ensures
        proxy_index(proxies, id) == Some(i),
{
    lemma_proxy_index(proxies, id);
    let j = proxy_index(proxies, id)->0;
    if j != i {
        if j < i {
            assert(proxies[j].space_id != proxies[i].space_id);
        } else {
            assert(proxies[i].space_id != proxies[j].space_id);
        }
    }
}

/// What has to be done for a connection of a space.
pub enum ProxyPlan {
    /// The proxy runs, and now has one lease more.
    Running,
    /// A proxy has to be started. A stale one, if there was one, is reaped, after it has been
    /// killed if it still lives; the leases on it carry over.
    Start { reap: bool, kill: bool, carried: usize },
}

/// The leases after a plan and, where it starts a proxy, the start.
pub open spec fn planned(
    before: Seq<ProxyView>,
    id: Seq<char>,
    alive: bool,
    socket_exists: bool,
    plan: ProxyPlan,
    after: Seq<ProxyView>,
) -> bool {
    match proxy_index(before, id) {
        Some(i) => if alive && socket_exists {
            &&& plan is Running
            &&& after == before.update(
                i,
                (ProxyView { leases: before[i].leases + 1, ..before[i] }),
            )
        } else {
            &&& plan matches ProxyPlan::Start { reap, kill, carried }
            &&& reap && kill == alive && carried == before[i].leases
            &&& after == before.remove(i)
        },
        None => {
            &&& plan matches ProxyPlan::Start { reap, kill, carried }
            &&& !reap && !kill && carried == 0
            &&& after == before
        },
    }
}

/// The proxies after a lease on the proxy of a space was given back.
pub open spec fn released(before: Seq<ProxyView>, id: Seq<char>) -> Seq<ProxyView> {
    match proxy_index(before, id) {
        None => before,
        Some(i) => if before[i].leases > 1 {
            before.update(
                i,
                (ProxyView { leases: (before[i].leases - 1) as nat, ..before[i] }),
            )
        } else {
            before.remove(i)
        },
    }
}

/// The context id under which a host reaches itself: no guest has it.
pub const LOCAL_CID: u32 = 1;

/// A row claims the address of the host itself.
pub open spec fn claims_local(rows: Seq<RegistryRow>) -> bool {
    exists|i: int| 0 <= i < rows.len() && (#[trigger] rows[i]).cid == LOCAL_CID
}

/// The first row with a context id.
pub open spec fn is_first_with(
    rows: Seq<RegistryRow>,
    cid: u32,
    found: Option<RegistryEntry>,
) -> bool {
    match found {
        Some(e) => exists|i: int|
            {
                &&& 0 <= i < rows.len()
                &&& #[trigger] rows[i] == e@
                &&& e@.cid == cid
                &&& forall|j: int| 0 <= j < i ==> (#[trigger] rows[j]).cid != cid
            },
        None => forall|j: int| 0 <= j < rows.len() ==> (#[trigger] rows[j]).cid != cid,
    }
}

/// The space with a context id, among the entries of a registry. What comes from the host itself
/// is no space, whatever the registry says.
pub fn find_guest(registry: &Vec<RegistryEntry>, cid: u32) -> (r: Option<RegistryEntry>)
    ensures
        if cid == LOCAL_CID {
            r is None
        } else {
            is_first_with(entry_rows(registry@), cid, r)
        },
{
    if cid == LOCAL_CID {
        return None;
    }
    let ghost rows = entry_rows(registry@);
    for i in 0..registry.len()
        invariant
            cid != LOCAL_CID,
            rows == entry_rows(registry@),
            forall|j: int| 0 <= j < i ==> (#[trigger] rows[j]).cid != cid,
    {
        assert(rows[i as int] == registry@[i as int]@);
        if registry[i].cid == cid {
            let e = registry[i].copy();
            assert(rows[i as int] == e@);
            return Some(e);
        }
    }
    None
}

impl Broker {
    pub fn new(cfg: BrokerConfig) -> (r: Broker)
        ensures
            r@ == Seq::<ProxyView>::empty(),
            is_sound(r@),
            r.cfg == cfg,
    {
        let r = Broker { cfg, started: Vec::new() };
        assert(r@ =~= Seq::<ProxyView>::empty());
        r
    }

    /// The space with a context id, from the text of the registry as it is now. A registry that
    /// cannot be read, or that gives a space the address of the host itself, refuses every guest:
    /// no earlier copy of it counts.
    pub fn resolve(&self, registry: &str, cid: u32) -> (r: Result<
        Option<RegistryEntry>,
        RegistryError,
    >)
        ensures
            match toml_read(registry@) {
                None => r == Err::<Option<RegistryEntry>, RegistryError>(RegistryError::Malformed),
                Some(document) => match rows_of_document(document) {
                    Err(e) => r == Err::<Option<RegistryEntry>, RegistryError>(e),
                    Ok(rows) => if claims_local(rows) {
                        r == Err::<Option<RegistryEntry>, RegistryError>(
                            RegistryError::LocalAddress,
                        )
                    } else {
                        r matches Ok(found) && is_first_with(rows, cid, found)
                    },
                },
            },
            cid == LOCAL_CID ==> !(r matches Ok(Some(_))),
    {
        let entries = load_registry_file(registry)?;
        let ghost rows = entry_rows(entries@);
        for i in 0..entries.len()
            invariant
                rows == entry_rows(entries@),
                toml_read(registry@) matches Some(document) && rows_of_document(document) == Ok::<
                    Seq<RegistryRow>,
                    RegistryError,
                >(rows),
                forall|j: int| 0 <= j < i ==> (#[trigger] rows[j]).cid != LOCAL_CID,
        {
            assert(rows[i as int] == entries@[i as int]@);
            if entries[i].cid == LOCAL_CID {
                assert(claims_local(rows));
                return Err(RegistryError::LocalAddress);
            }
        }
        Ok(find_guest(&entries, cid))
    }

    /// The socket of a space lies in a directory of its own: the sandbox mounts all of it.
    pub fn socket_path(&self, space_id: &str) -> (r: String)
        ensures
            r@ == join_path(
                join_path(join_path(self.cfg.run_dir@, space_id@), GUI_SUBDIR@),
                "gui.sock"@,
            ),
    {
        let dir = path_join(self.cfg.run_dir.as_str(), space_id);
        let dir = path_join(dir.as_str(), GUI_SUBDIR);
        path_join(dir.as_str(), "gui.sock")
    }

    fn position(&self, id: &str) -> (r: Option<usize>)
        ensures
            match (r, proxy_index(self@, id@)) {
                (Some(i), Some(j)) => i == j && i < self.started@.len(),
                (None, None) => true,
                _ => false,
            },
    {
        let ghost all = self@;
        proof {
            lemma_proxy_index(all, id@);
        }
        for i in 0..self.started.len()
            invariant
                all == proxy_views(self.started@),
                all == self@,
                forall|j: int| 0 <= j < i ==> (#[trigger] all[j]).space_id != id@,
                match proxy_index(all, id@) {
                    Some(i) => 0 <= i < all.len() && all[i].space_id == id@ && forall|j: int|
                        0 <= j < i ==> (#[trigger] all[j]).space_id != id@,
                    None => forall|j: int|
                        0 <= j < all.len() ==> (#[trigger] all[j]).space_id != id@,
                },
        {
            assert(all[i as int].space_id == self.started@[i as int].space_id@);
            if str_equal(self.started[i].space_id.as_str(), id) {
                return Some(i);
            }
        }
        None
    }

    /// Decides what a connection of a space needs. `alive` and `socket_exists` say what is
    /// observed of the proxy that is on record, if there is one.
    pub fn ensure_proxy(&mut self, space_id: &str, alive: bool, socket_exists: bool) -> (r:
        ProxyPlan)
        requires
            leases_of(old(self)@, space_id@) < usize::MAX,
        ensures
            final(self).cfg == old(self).cfg,
            planned(old(self)@, space_id@, alive, socket_exists, r, final(self)@),
            is_sound(old(self)@) ==> is_sound(final(self)@),
    {
        match self.position(space_id) {
            Some(i) => {
                let ghost before = self@;
                assert(before[i as int] == self.started@[i as int]@);
                if alive && socket_exists {
                    let p = &self.started[i];
                    let renewed = Proxy {
                        space_id: p.space_id.clone(),
                        leases: p.leases + 1,
                        socket: p.socket.clone(),
                        cid: p.cid,
                    };
                    self.started.set(i, renewed);
                    assert(self@ =~= before.update(
                        i as int,
                        ProxyView {
                            leases: before[i as int].leases + 1,
                            ..before[i as int]
                        },
                    ));
                    proof {
                        if is_sound(before) {
                            lemma_update_sound(before, i as int, self@[i as int]);
                        }
                    }
                    ProxyPlan::Running
                } else {
                    let stale = self.started.remove(i);
                    assert(self@ =~= before.remove(i as int));
                    proof {
                        if is_sound(before) {
                            lemma_remove_sound(before, i as int);
                        }
                    }
                    ProxyPlan::Start { reap: true, kill: alive, carried: stale.leases }
                }
            },
            None => ProxyPlan::Start { reap: false, kill: false, carried: 0 },
        }
    }

    /// Puts a started proxy on record, with the leases that carried over and one more.
    pub fn proxy_started(&mut self, space_id: &str, cid: u32, socket: &str, carried: usize)
        requires
            carried < usize::MAX,
        ensures
            final(self).cfg == old(self).cfg,
            final(self)@ == old(self)@.push(
                (ProxyView {
                    space_id: space_id@,
                    leases: carried as nat + 1,
                    socket: socket@,
                    cid,
                }),
            ),
            is_sound(old(self)@) && proxy_index(old(self)@, space_id@) is None ==> is_sound(
                final(self)@,
            ),
    {
        let ghost before = self@;
        let p = Proxy {
            space_id: space_id.to_owned(),
            leases: carried + 1,
            socket: socket.to_owned(),
            cid,
        };
        self.started.push(p);
        assert(self@ =~= before.push(p@));
        proof {
            if is_sound(before) && proxy_index(before, space_id@) is None {
                lemma_push_sound(before, p@);
            }
        }
    }

    /// Gives a lease back. With the last one the proxy goes, and is handed out to be killed.
    pub fn release_proxy(&mut self, space_id: &str) -> (r: Option<Proxy>)
        ensures
            final(self).cfg == old(self).cfg,
            final(self)@ == released(old(self)@, space_id@),
            match proxy_index(old(self)@, space_id@) {
                None => r is None,
                Some(i) => if old(self)@[i].leases > 1 {
                    r is None
                } else {
                    r matches Some(p) && p@ == old(self)@[i]
                },
            },
            is_sound(old(self)@) ==> is_sound(final(self)@),
    {
        proof {
            lemma_proxy_index(self@, space_id@);
        }
        match self.position(space_id) {
            Some(i) => {
                let ghost before = self@;
                assert(before[i as int] == self.started@[i as int]@);
                if self.started[i].leases > 1 {
                    let p = &self.started[i];
                    let kept = Proxy {
                        space_id: p.space_id.clone(),
                        leases: p.leases - 1,
                        socket: p.socket.clone(),
                        cid: p.cid,
                    };
                    self.started.set(i, kept);
                    assert(self@ =~= before.update(
                        i as int,
                        ProxyView {
                            leases: (before[i as int].leases - 1) as nat,
                            ..before[i as int]
                        },
                    ));
                    proof {
                        if is_sound(before) {
                            lemma_update_sound(before, i as int, self@[i as int]);
                        }
                    }
                    None
                } else {
                    let dead = self.started.remove(i);
                    assert(self@ =~= before.remove(i as int));
                    proof {
                        if is_sound(before) {
                            lemma_remove_sound(before, i as int);
                        }
                    }
                    Some(dead)
                }
            },
            None => None,
        }
    }

    /// Takes the proxies off the record whose guests are gone, and hands them out to be killed.
    /// `errors` is what a look at each guest gave, in the order of the record; nothing means
    /// that the guest answered.
    pub fn reap_dead_proxies(&mut self, errors: &Vec<Option<i32>>) -> (r: Vec<Proxy>)
        requires
            errors@.len() == old(self)@.len(),
        ensures
            final(self).cfg == old(self).cfg,
            final(self)@ == kept_proxies(old(self)@, errors@),
            proxy_views(r@) == gone_proxies(old(self)@, errors@),
            is_sound(old(self)@) ==> is_sound(final(self)@),
    {
        let ghost before = self@;
        let ghost found = errors@;
        let mut gone: Vec<Proxy> = Vec::new();
        let mut kept: Vec<Proxy> = Vec::new();
        assert(proxy_views(gone@) =~= seq![]);
        assert(proxy_views(kept@) =~= seq![]);
        assert(before.take(0) =~= seq![]);
        for i in 0..self.started.len()
            invariant
                before == proxy_views(self.started@),
                found == errors@,
                found.len() == before.len(),
                proxy_views(gone@) == gone_proxies(
                    before.take(i as int),
                    found.take(i as int),
                ),
                proxy_views(kept@) == kept_proxies(
                    before.take(i as int),
                    found.take(i as int),
                ),
        {
            assert(before.take(i + 1).drop_last() =~= before.take(i as int));
            assert(found.take(i + 1).drop_last() =~= found.take(i as int));
            assert(before.take(i + 1).last() == self.started@[i as int]@);
            assert(found.take(i + 1).last() == found[i as int]);
            let p = &self.started[i];
            let copy = Proxy {
                space_id: p.space_id.clone(),
                leases: p.leases,
                socket: p.socket.clone(),
                cid: p.cid,
            };
            if cid_is_gone(errors[i]) {
                let ghost g = proxy_views(gone@);
                gone.push(copy);
                assert(proxy_views(gone@) =~= g.push(copy@));
            } else {
                let ghost k = proxy_views(kept@);
                kept.push(copy);
                assert(proxy_views(kept@) =~= k.push(copy@));
            }
        }
        assert(before.take(before.len() as int) =~= before);
        assert(found.take(found.len() as int) =~= found);
        self.started = kept;
        proof {
            if is_sound(before) {
                lemma_kept_sound(before, found);
            }
        }
        gone
    }
}

/// The proxies whose guests are gone.
pub open spec fn gone_proxies(proxies: Seq<ProxyView>, errors: Seq<Option<i32>>) -> Seq<ProxyView>
    decreases proxies.len(),
{
    if proxies.len() == 0 {
        seq![]
    } else if errors.last() == Some(ENODEV) {
        gone_proxies(proxies.drop_last(), errors.drop_last()).push(proxies.last())
    } else {
        gone_proxies(proxies.drop_last(), errors.drop_last())
    }
}

/// The others.
pub open spec fn kept_proxies(proxies: Seq<ProxyView>, errors: Seq<Option<i32>>) -> Seq<ProxyView>
    decreases proxies.len(),
{
    if proxies.len() == 0 {
        seq![]
    } else if errors.last() == Some(ENODEV) {
        kept_proxies(proxies.drop_last(), errors.drop_last())
    } else {
        kept_proxies(proxies.drop_last(), errors.drop_last()).push(proxies.last())
    }
}

spec fn stands_after(proxies: Seq<ProxyView>, i: int, p: ProxyView) -> bool {
    exists|j: int| i < j < proxies.len() && proxies[j] == p
}

proof fn lemma_kept_among(proxies: Seq<ProxyView>, errors: Seq<Option<i32>>, k: int) -> (i: int)
    requires
        0 <= k < kept_proxies(proxies, errors).len(),
    ensures
        0 <= i < proxies.len(),
        proxies[i] == kept_proxies(proxies, errors)[k],
        forall|l: int|
            k < l < kept_proxies(proxies, errors).len() ==> stands_after(
                proxies,
                i,
                #[trigger] kept_proxies(proxies, errors)[l],
            ),
    decreases proxies.len(),
{
    let kept = kept_proxies(proxies, errors);
    let front = kept_proxies(proxies.drop_last(), errors.drop_last());
    if errors.last() != Some(ENODEV) && k == front.len() {
        assert(kept == front.push(proxies.last()));
        proxies.len() - 1
    } else {
        let i = lemma_kept_among(proxies.drop_last(), errors.drop_last(), k);
        assert forall|l: int| k < l < kept.len() implies stands_after(
            proxies,
            i,
            #[trigger] kept[l],
        ) by {
            if l < front.len() {
                assert(kept[l] == front[l]);
                let j = choose|j: int|
                    i < j < proxies.drop_last().len() && proxies.drop_last()[j] == front[l];
                assert(proxies[j] == kept[l]);
            } else {
                assert(proxies[proxies.len() - 1] == kept[l]);
            }
        }
        i
    }
}

proof fn lemma_kept_sound(proxies: Seq<ProxyView>, errors: Seq<Option<i32>>)
    requires
        is_sound(proxies),
    ensures
        is_sound(kept_proxies(proxies, errors)),
{
    let kept = kept_proxies(proxies, errors);
    assert forall|a: int, b: int| 0 <= a < b < kept.len() implies #[trigger] kept[a].space_id
        != #[trigger] kept[b].space_id by {
        let i = lemma_kept_among(proxies, errors, a);
        let j = choose|j: int| i < j < proxies.len() && proxies[j] == kept[b];
        assert(proxies[i].space_id != proxies[j].space_id);
    }
    assert forall|a: int| 0 <= a < kept.len() implies (#[trigger] kept[a]).leases > 0 by {
        let i = lemma_kept_among(proxies, errors, a);
        assert(proxies[i].leases > 0);
    }
}

proof fn lemma_update_sound(proxies: Seq<ProxyView>, i: int, p: ProxyView)
    requires
        is_sound(proxies),
        0 <= i < proxies.len(),
        p.space_id == proxies[i].space_id,
        p.leases > 0,
    ensures
        is_sound(proxies.update(i, p)),
{
    let after = proxies.update(i, p);
    assert forall|a: int, b: int| 0 <= a < b < after.len() implies #[trigger] after[a].space_id
        != #[trigger] after[b].space_id by {
        assert(proxies[a].space_id != proxies[b].space_id);
    }
    assert forall|a: int| 0 <= a < after.len() implies (#[trigger] after[a]).leases > 0 by {
        assert(proxies[a].leases > 0);
    }
}

proof fn lemma_remove_sound(proxies: Seq<ProxyView>, i: int)
    requires
        is_sound(proxies),
        0 <= i < proxies.len(),
    ensures
        is_sound(proxies.remove(i)),
        proxy_index(proxies.remove(i), proxies[i].space_id) is None,
{
    let after = proxies.remove(i);
    assert forall|a: int, b: int| 0 <= a < b < after.len() implies #[trigger] after[a].space_id
        != #[trigger] after[b].space_id by {
        let x = if a < i {
            a
        } else {
            a + 1
        };
        let y = if b < i {
            b
        } else {
            b + 1
        };
        assert(after[a] == proxies[x] && after[b] == proxies[y]);
        assert(proxies[x].space_id != proxies[y].space_id);
    }
    assert forall|a: int| 0 <= a < after.len() implies (#[trigger] after[a]).leases > 0 by {
        let x = if a < i {
            a
        } else {
            a + 1
        };
        assert(after[a] == proxies[x]);
        assert(proxies[x].leases > 0);
    }
    lemma_proxy_index(after, proxies[i].space_id);
    if proxy_index(after, proxies[i].space_id) is Some {
        let a = proxy_index(after, proxies[i].space_id)->0;
        if a < i {
            assert(proxies[a].space_id != proxies[i].space_id);
        } else {
            assert(after[a] == proxies[a + 1]);
            assert(proxies[i].space_id != proxies[a + 1].space_id);
        }
    }
}

/// A connection adds one lease to those of its space, whether its proxy ran, was started or was
/// started anew: the connections that counted on the old proxy are not forgotten.
pub proof fn a_connection_adds_one_lease(
    before: Seq<ProxyView>,
    id: Seq<char>,
    alive: bool,
    socket_exists: bool,
    plan: ProxyPlan,
    middle: Seq<ProxyView>,
    socket: Seq<char>,
    cid: u32,
)
    requires
        is_sound(before),
        planned(before, id, alive, socket_exists, plan, middle),
    ensures
        match plan {
            ProxyPlan::Running => leases_of(middle, id) == leases_of(before, id) + 1,
            ProxyPlan::Start { reap, kill, carried } => {
                &&& proxy_index(middle, id) is None
                &&& leases_of(
                    middle.push(
                        (ProxyView {
                            space_id: id,
                            leases: carried as nat + 1,
                            socket,
                            cid,
                        }),
                    ),
                    id,
                ) == leases_of(before, id) + 1
            },
        },
{
    lemma_proxy_index(before, id);
    match plan {
        ProxyPlan::Running => {
            let i = proxy_index(before, id)->0;
            lemma_update_sound(before, i, middle[i]);
            lemma_proxy_index_is(middle, id, i);
        },
        ProxyPlan::Start { reap, kill, carried } => {
            if proxy_index(before, id) is Some {
                lemma_remove_sound(before, proxy_index(before, id)->0);
            }
            let p = ProxyView { space_id: id, leases: carried as nat + 1, socket, cid };
            let after = middle.push(p);
            lemma_proxy_index(middle, id);
            lemma_proxy_index(after, id);
            let j = proxy_index(after, id)->0;
            assert(after[middle.len() as int].space_id == id);
            if j < middle.len() {
                assert(after[j] == middle[j]);
            }
        },
    }
}

proof fn lemma_push_sound(before: Seq<ProxyView>, p: ProxyView)
    requires
        is_sound(before),
        proxy_index(before, p.space_id) is None,
        p.leases > 0,
    ensures
        is_sound(before.push(p)),
{
    lemma_proxy_index(before, p.space_id);
    let after = before.push(p);
    assert forall|i: int, j: int| 0 <= i < j < after.len() implies #[trigger] after[i].space_id
        != #[trigger] after[j].space_id by {
        if j < before.len() {
            assert(before[i].space_id != before[j].space_id);
        } else {
            assert(after[i] == before[i]);
        }
    }
    assert forall|i: int| 0 <= i < after.len() implies (#[trigger] after[i]).leases > 0 by {
        if i < before.len() {
            assert(before[i].leases > 0);
        }
    }
}

/// A lease that is given back is gone, and with the last one the proxy: it never outlives the
/// connections of its space.
pub proof fn the_last_release_ends_the_proxy(before: Seq<ProxyView>, id: Seq<char>)
    requires
        is_sound(before),
        proxy_index(before, id) is Some,
    ensures
        is_sound(released(before, id)),
        leases_of(released(before, id), id) == leases_of(before, id) - 1,
        proxy_index(released(before, id), id) is Some <==> leases_of(before, id) > 1,
{
    lemma_proxy_index(before, id);
    let i = proxy_index(before, id)->0;
    if before[i].leases > 1 {
        let p = ProxyView { leases: (before[i].leases - 1) as nat, ..before[i] };
        lemma_update_sound(before, i, p);
        lemma_proxy_index_is(before.update(i, p), id, i);
    } else {
        lemma_remove_sound(before, i);
        assert(before[i].leases > 0);
    }
}

/// The proxies after that many leases on the proxy of a space were given back.
pub open spec fn released_times(before: Seq<ProxyView>, id: Seq<char>, times: nat) -> Seq<ProxyView>
    decreases times,
{
    if times == 0 {
        before
    } else {
        released(released_times(before, id, (times - 1) as nat), id)
    }
}

proof fn lemma_released_times(before: Seq<ProxyView>, id: Seq<char>, times: nat)
    requires
        is_sound(before),
        proxy_index(before, id) is Some,
        times <= leases_of(before, id),
    ensures
        is_sound(released_times(before, id, times)),
        leases_of(released_times(before, id, times), id) == leases_of(before, id) - times,
        proxy_index(released_times(before, id, times), id) is Some <==> times < leases_of(
            before,
            id,
        ),
    decreases times,
{
    lemma_proxy_index(before, id);
    assert(before[proxy_index(before, id)->0].leases > 0);
    if times > 0 {
        let less = (times - 1) as nat;
        lemma_released_times(before, id, less);
        the_last_release_ends_the_proxy(released_times(before, id, less), id);
    }
}

/// The proxies after a connection was served: where a proxy had to be started, it is on record.
pub open spec fn connected(
    plan: ProxyPlan,
    middle: Seq<ProxyView>,
    id: Seq<char>,
    socket: Seq<char>,
    cid: u32,
) -> Seq<ProxyView> {
    match plan {
        ProxyPlan::Running => middle,
        ProxyPlan::Start { reap, kill, carried } => middle.push(
            (ProxyView { space_id: id, leases: carried as nat + 1, socket, cid }),
        ),
    }
}

/// A proxy lasts as long as its leases, however often it was started anew: a space with `n`
/// leases has one more after a connection, and only the release of all of them takes the proxy
/// away. It is started exactly where none runs with its socket in place.
pub proof fn a_proxy_lasts_as_long_as_its_leases(
    before: Seq<ProxyView>,
    id: Seq<char>,
    alive: bool,
    socket_exists: bool,
    plan: ProxyPlan,
    middle: Seq<ProxyView>,
    socket: Seq<char>,
    cid: u32,
    times: nat,
)
    requires
        is_sound(before),
        planned(before, id, alive, socket_exists, plan, middle),
        times <= leases_of(before, id) + 1,
    ensures
        ({
            let n = leases_of(before, id);
            let after = connected(plan, middle, id, socket, cid);
            let left = released_times(after, id, times);
            &&& plan is Running <==> proxy_index(before, id) is Some && alive && socket_exists
            &&& is_sound(after)
            &&& leases_of(after, id) == n + 1
            &&& leases_of(left, id) == n + 1 - times
            &&& proxy_index(left, id) is Some <==> times < n + 1
        }),
{
    a_connection_adds_one_lease(before, id, alive, socket_exists, plan, middle, socket, cid);
    lemma_proxy_index(before, id);
    let after = connected(plan, middle, id, socket, cid);
    match plan {
        ProxyPlan::Running => {
            let i = proxy_index(before, id)->0;
            lemma_update_sound(before, i, middle[i]);
        },
        ProxyPlan::Start { reap, kill, carried } => {
            if proxy_index(before, id) is Some {
                lemma_remove_sound(before, proxy_index(before, id)->0);
            }
            lemma_push_sound(
                middle,
                ProxyView { space_id: id, leases: carried as nat + 1, socket, cid },
            );
        },
    }
    lemma_released_times(after, id, times);
}

/// A look at the guests takes exactly the proxies whose guests no longer exist: each of those is
/// handed out, every other one stays, and none is lost or made up.
pub proof fn a_guest_that_is_gone_loses_its_proxy(
    proxies: Seq<ProxyView>,
    errors: Seq<Option<i32>>,
    k: int,
)
    requires
        errors.len() == proxies.len(),
        0 <= k < proxies.len(),
    ensures
        errors[k] == Some(19i32) ==> gone_proxies(proxies, errors).contains(proxies[k]),
        errors[k] != Some(19i32) ==> kept_proxies(proxies, errors).contains(proxies[k]),
        gone_proxies(proxies, errors).len() + kept_proxies(proxies, errors).len() == proxies.len(),
    decreases proxies.len(),
{
    let p = proxies.drop_last();
    let e = errors.drop_last();
    lemma_reaped_len(proxies, errors);
    if k < p.len() {
        a_guest_that_is_gone_loses_its_proxy(p, e, k);
        if errors[k] == Some(19i32) {
            let i = choose|i: int|
                0 <= i < gone_proxies(p, e).len() && gone_proxies(p, e)[i] == proxies[k];
            assert(gone_proxies(proxies, errors)[i] == proxies[k]);
        } else {
            let i = choose|i: int|
                0 <= i < kept_proxies(p, e).len() && kept_proxies(p, e)[i] == proxies[k];
            assert(kept_proxies(proxies, errors)[i] == proxies[k]);
        }
    } else if errors[k] == Some(19i32) {
        assert(gone_proxies(proxies, errors).last() == proxies[k]);
    } else {
        assert(kept_proxies(proxies, errors).last() == proxies[k]);
    }
}

proof fn lemma_reaped_len(proxies: Seq<ProxyView>, errors: Seq<Option<i32>>)
    ensures
        gone_proxies(proxies, errors).len() + kept_proxies(proxies, errors).len() == proxies.len(),
    decreases proxies.len(),
{
    if proxies.len() > 0 {
        lemma_reaped_len(proxies.drop_last(), errors.drop_last());
    }
}

/// A connection of one space, and a lease that it gives back, leave the proxies of the others as
/// they are: none goes, none comes, none changes its leases, its socket or its guest.
pub proof fn the_others_keep_their_proxies(
    before: Seq<ProxyView>,
    id: Seq<char>,
    alive: bool,
    socket_exists: bool,
    plan: ProxyPlan,
    middle: Seq<ProxyView>,
    p: ProxyView,
)
    requires
        planned(before, id, alive, socket_exists, plan, middle),
        p.space_id != id,
    ensures
        before.contains(p) <==> middle.contains(p),
        before.contains(p) <==> released(before, id).contains(p),
{
    lemma_proxy_index(before, id);
    if proxy_index(before, id) is Some {
        let i = proxy_index(before, id)->0;
        let more = before.update(i, (ProxyView { leases: before[i].leases + 1, ..before[i] }));
        let fewer = before.update(
            i,
            (ProxyView { leases: (before[i].leases - 1) as nat, ..before[i] }),
        );
        let without = before.remove(i);
        if before.contains(p) {
            let k = choose|k: int| 0 <= k < before.len() && before[k] == p;
            assert(k != i);
            assert(more[k] == p && fewer[k] == p);
            assert(without[if k < i {
                k
            } else {
                k - 1
            }] == p);
        }
        if more.contains(p) {
            let k = choose|k: int| 0 <= k < more.len() && more[k] == p;
            assert(before[k] == p);
        }
        if fewer.contains(p) {
            let k = choose|k: int| 0 <= k < fewer.len() && fewer[k] == p;
            assert(before[k] == p);
        }
        if without.contains(p) {
            let k = choose|k: int| 0 <= k < without.len() && without[k] == p;
            assert(before[if k < i {
                k
            } else {
                k + 1
            }] == p);
        }
    }
}

/// A stale proxy is killed if it still lives, and always reaped; where none was on record,
/// nothing is. What is started takes over the leases of what it replaces.
pub proof fn a_stale_proxy_is_put_away(
    before: Seq<ProxyView>,
    id: Seq<char>,
    alive: bool,
    socket_exists: bool,
    plan: ProxyPlan,
    middle: Seq<ProxyView>,
)
    requires
        planned(before, id, alive, socket_exists, plan, middle),
    ensures
        plan matches ProxyPlan::Start { reap, kill, carried } ==> {
            &&& carried == leases_of(before, id)
            &&& reap <==> exists|i: int| 0 <= i < before.len() && (#[trigger] before[i]).space_id
                == id
            &&& kill <==> reap && alive
            &&& reap ==> !(alive && socket_exists)
        },
{
    lemma_proxy_index(before, id);
    if proxy_index(before, id) is Some {
        assert(before[proxy_index(before, id)->0].space_id == id);
    }
}

/// A guest is known by its context id alone: the space that is found has it, and was on record;
/// where none is found, none has it. Who asks twice is answered alike.
pub proof fn a_guest_is_known_by_its_context_id(
    rows: Seq<RegistryRow>,
    cid: u32,
    found: Option<RegistryEntry>,
    again: Option<RegistryEntry>,
)
    requires
        is_first_with(rows, cid, found),
        is_first_with(rows, cid, again),
    ensures
        found matches Some(e) ==> e.cid == cid && rows.contains(e@),
        found is None ==> forall|i: int| 0 <= i < rows.len() ==> (#[trigger] rows[i]).cid != cid,
        found is Some <==> again is Some,
        found is Some && again is Some ==> found->0@ == again->0@,
{
    if found is Some && again is Some {
        let e = found->0;
        let f = again->0;
        let i = choose|i: int|
            {
                &&& 0 <= i < rows.len()
                &&& #[trigger] rows[i] == e@
                &&& e@.cid == cid
                &&& forall|j: int| 0 <= j < i ==> (#[trigger] rows[j]).cid != cid
            };
        let k = choose|k: int|
            {
                &&& 0 <= k < rows.len()
                &&& #[trigger] rows[k] == f@
                &&& f@.cid == cid
                &&& forall|j: int| 0 <= j < k ==> (#[trigger] rows[j]).cid != cid
            };
        assert(i == k) by {
            if i < k {
                assert(rows[i].cid != cid);
            } else if k < i {
                assert(rows[k].cid != cid);
            }
        }
    }
}

/// A registry claims the address of the host itself if one of its rows has the context id under
/// which a host reaches itself.
pub proof fn the_host_is_no_guest(rows: Seq<RegistryRow>, i: int)
    ensures
        0 <= i < rows.len() && rows[i].cid == 1 ==> claims_local(rows),
        claims_local(rows) ==> exists|k: int| 0 <= k < rows.len() && (#[trigger] rows[k]).cid == 1,
{
}

/// A flag at the end of the command line of the broker sets what it names, and leaves the rest as
/// it is.
pub proof fn a_broker_flag_sets_what_it_names(args: Seq<Seq<char>>, value: Seq<char>, c: GuidView)
    requires
        guid_of(args, c) is Ok,
    ensures
        ({
            let before = guid_of(args, c)->Ok_0;
            &&& guid_of(args + seq!["--registry"@, value], c) == Ok::<GuidView, Seq<char>>(
                GuidView { registry: value, ..before },
            )
            &&& (parse_dec(value, 0xffff_ffff) matches Some(n) ==> guid_of(
                args + seq!["--port"@, value],
                c,
            ) == Ok::<GuidView, Seq<char>>(GuidView { port: n as u32, ..before }))
            &&& parse_dec(value, 0xffff_ffff) is None ==> guid_of(
                args + seq!["--port"@, value],
                c,
            ) is Err
        }),
    decreases args.len(),
{
    reveal_strlit("--registry");
    reveal_strlit("--port");
    assert("--registry"@.len() == 10 && "--port"@.len() == 6);
    let a = args + seq!["--registry"@, value];
    let b = args + seq!["--port"@, value];
    if args.len() == 0 {
        assert(a[0] == "--registry"@ && a[1] == value && a.skip(2) =~= seq![]);
        assert(b[0] == "--port"@ && b[1] == value && b.skip(2) =~= seq![]);
        reveal_with_fuel(guid_of, 2);
    } else {
        assert(a[0] == args[0] && b[0] == args[0] && a[1] == args[1] && b[1] == args[1]);
        let rest = args.skip(2);
        assert(a.skip(2) =~= rest + seq!["--registry"@, value]);
        assert(b.skip(2) =~= rest + seq!["--port"@, value]);
        if args[0] == "--registry"@ {
            a_broker_flag_sets_what_it_names(rest, value, GuidView { registry: args[1], ..c });
        } else {
            a_broker_flag_sets_what_it_names(
                rest,
                value,
                GuidView { port: parse_dec(args[1], u32::MAX as nat)->0 as u32, ..c },
            );
        }
    }
}

} // verus!
