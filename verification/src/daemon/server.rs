//! The command line of the daemon, and the merging of two lists of spaces.
use crate::bytes::{quote, quoted};
use crate::daemon::render::{by_cid, entry_rows, RegistryEntry, RegistryRow};
use crate::order::{lemma_insert_at, sort_by};
use crate::text::{
    chars_of, dec, number_fault, opt_text, parse_dec, str_equal, str_to_u32, texts, u32_to_string,
    why_no_number,
};
use vstd::prelude::*;

verus! {

// ---------------------------------------------------------------------------------------------
// Merging
// ---------------------------------------------------------------------------------------------

/// What an entry is to those that are there: the first one that shares something with it
/// decides.
pub enum Meeting {
    New,
    Known,
    Conflict(Seq<char>),
}

pub open spec fn cid_conflict(cid: u32, first: Seq<char>, second: Seq<char>) -> Seq<char> {
    "конфликт cid "@ + dec(cid as nat) + ": id "@ + quoted(first) + " и "@ + quoted(second)
        + " указывают один и тот же cid"@
}

pub open spec fn id_conflict(id: Seq<char>, first: u32, second: u32) -> Seq<char> {
    "конфликт id "@ + quoted(id) + ": cid "@ + dec(first as nat) + " и "@ + dec(second as nat)
        + " назначены одному id"@
}

pub open spec fn meet(known: Seq<RegistryRow>, e: RegistryRow) -> Meeting
    decreases known.len(),
{
    if known.len() == 0 {
        Meeting::New
    } else if known[0].cid == e.cid && known[0].id == e.id {
        Meeting::Known
    } else if known[0].cid == e.cid {
        Meeting::Conflict(cid_conflict(e.cid, known[0].id, e.id))
    } else if known[0].id == e.id {
        Meeting::Conflict(id_conflict(e.id, known[0].cid, e.cid))
    } else {
        meet(known.skip(1), e)
    }
}

/// The entries in the order in which they came, each once. A context id is a mark of trust, so
/// two spaces are never folded into one.
pub open spec fn gather(rows: Seq<RegistryRow>) -> Result<Seq<RegistryRow>, Seq<char>>
    decreases rows.len(),
{
    if rows.len() == 0 {
        Ok(seq![])
    } else {
        match gather(rows.drop_last()) {
            Err(e) => Err(e),
            Ok(known) => match meet(known, rows.last()) {
                Meeting::New => Ok(known.push(rows.last())),
                Meeting::Known => Ok(known),
                Meeting::Conflict(words) => Err(words),
            },
        }
    }
}

proof fn lemma_gather_error(rows: Seq<RegistryRow>, k: int)
    requires
        0 <= k <= rows.len(),
        gather(rows.take(k)) is Err,
    ensures
        gather(rows) == gather(rows.take(k)),
    decreases rows.len() - k,
{
    if k < rows.len() {
        assert(rows.take(k + 1).drop_last() =~= rows.take(k));
        lemma_gather_error(rows, k + 1);
    } else {
        assert(rows.take(k) =~= rows);
    }
}

/// The outcome of a comparison with the entries that are there.
enum Met {
    New,
    Known,
    Conflict(String),
}

fn meet_entry(known: &Vec<RegistryEntry>, e: &RegistryEntry) -> (r: Met)
    ensures
        match (r, meet(entry_rows(known@), e@)) {
            (Met::New, Meeting::New) => true,
            (Met::Known, Meeting::Known) => true,
            (Met::Conflict(a), Meeting::Conflict(b)) => a@ == b,
            _ => false,
        },
{
    let ghost all = entry_rows(known@);
    assert(all.skip(0) =~= all);
    for i in 0..known.len()
        invariant
            all == entry_rows(known@),
            meet(all.skip(i as int), e@) == meet(all, e@),
    {
        assert(all.skip(i as int)[0] == known@[i as int]@);
        let k = &known[i];
        let same_id = str_equal(k.id.as_str(), e.id.as_str());
        if k.cid == e.cid && same_id {
            return Met::Known;
        }
        if k.cid == e.cid {
            return Met::Conflict(
                "конфликт cid ".to_owned().concat(u32_to_string(e.cid).as_str()).concat(
                    ": id ",
                ).concat(quote(k.id.as_str()).as_str()).concat(" и ").concat(
                    quote(e.id.as_str()).as_str(),
                ).concat(" указывают один и тот же cid"),
            );
        }
        if same_id {
            return Met::Conflict(
                "конфликт id ".to_owned().concat(quote(e.id.as_str()).as_str()).concat(
                    ": cid ",
                ).concat(u32_to_string(k.cid).as_str()).concat(" и ").concat(
                    u32_to_string(e.cid).as_str(),
                ).concat(" назначены одному id"),
            );
        }
        assert(all.skip(i as int).skip(1) =~= all.skip(i + 1));
    }
    assert(all.skip(known@.len() as int) =~= seq![]);
    Met::New
}

fn sort_entries(entries: &Vec<RegistryEntry>) -> (r: Vec<RegistryEntry>)
    ensures
        entry_rows(r@) == sort_by(entry_rows(entries@), by_cid()),
{
    let ghost all = entry_rows(entries@);
    let mut out: Vec<RegistryEntry> = Vec::new();
    assert(all.take(0) =~= seq![]);
    assert(entry_rows(out@) =~= seq![]);
    for i in 0..entries.len()
        invariant
            all == entry_rows(entries@),
            entry_rows(out@) == sort_by(all.take(i as int), by_cid()),
    {
        assert(all.take(i + 1).drop_last() =~= all.take(i as int));
        assert(all.take(i + 1).last() == entries@[i as int]@);
        let e = entries[i].copy();
        let ghost rows = entry_rows(out@);
        let mut pos: usize = out.len();
        while pos > 0 && !(out[pos - 1].cid <= e.cid)
            invariant
                pos <= out@.len(),
                rows == entry_rows(out@),
                forall|j: int| pos <= j < rows.len() ==> !by_cid()(#[trigger] rows[j], e@),
            decreases pos,
        {
            assert(rows[pos - 1] == out@[pos - 1]@);
            pos = pos - 1;
        }
        proof {
            if pos > 0 {
                assert(rows[pos - 1] == out@[pos - 1]@);
            }
            lemma_insert_at(rows, e@, by_cid(), pos as int);
        }
        out.insert(pos, e);
        assert(entry_rows(out@) =~= rows.insert(pos as int, e@));
    }
    assert(all.take(entries@.len() as int) =~= all);
    out
}

/// The entries of both lists, by context id.
pub fn merge_entries(a: &Vec<RegistryEntry>, b: &Vec<RegistryEntry>) -> (r: Result<
    Vec<RegistryEntry>,
    String,
>)
    ensures
        match (r, gather(entry_rows(a@) + entry_rows(b@))) {
            (Ok(merged), Ok(rows)) => entry_rows(merged@) == sort_by(rows, by_cid()),
            (Err(m), Err(words)) => m@ == words,
            _ => false,
        },
{
    let ghost all = entry_rows(a@) + entry_rows(b@);
    let mut merged: Vec<RegistryEntry> = Vec::new();
    assert(all.take(0) =~= seq![]);
    assert(entry_rows(merged@) =~= seq![]);
    let mut k: usize = 0;
    let mut from_b: bool = false;
    let mut n: Ghost<int> = Ghost(0);
    loop
        invariant
            all == entry_rows(a@) + entry_rows(b@),
            0 <= n@ <= all.len(),
            !from_b ==> k <= a@.len() && n@ == k,
            from_b ==> k <= b@.len() && n@ == a@.len() + k,
            gather(all.take(n@)) == Ok::<Seq<RegistryRow>, Seq<char>>(entry_rows(merged@)),
        decreases all.len() - n@, (if from_b {
            0int
        } else {
            1int
        }),
    {
        if !from_b && k == a.len() {
            from_b = true;
            k = 0;
        } else if from_b && k == b.len() {
            assert(all.take(n@) =~= all);
            return Ok(sort_entries(&merged));
        } else {
            let e = if from_b {
                b[k].copy()
            } else {
                a[k].copy()
            };
            assert(all[n@] == e@);
            assert(all.take(n@ + 1).drop_last() =~= all.take(n@));
            assert(all.take(n@ + 1).last() == e@);
            match meet_entry(&merged, &e) {
                Met::New => {
                    let ghost before = entry_rows(merged@);
                    merged.push(e);
                    assert(entry_rows(merged@) =~= before.push(e@));
                },
                Met::Known => {},
                Met::Conflict(words) => {
                    proof {
                        lemma_gather_error(all, n@ + 1);
                    }
                    return Err(words);
                },
            }
            k = k + 1;
            proof {
                n@ = n@ + 1;
            }
        }
    }
}

proof fn lemma_meet_new(known: Seq<RegistryRow>, e: RegistryRow)
    requires
        meet(known, e) is New,
    ensures
        forall|i: int|
            0 <= i < known.len() ==> (#[trigger] known[i]).cid != e.cid && known[i].id != e.id,
    decreases known.len(),
{
    if known.len() > 0 {
        lemma_meet_new(known.skip(1), e);
        assert forall|i: int| 0 <= i < known.len() implies (#[trigger] known[i]).cid != e.cid
            && known[i].id != e.id by {
            if i > 0 {
                assert(known[i] == known.skip(1)[i - 1]);
            }
        }
    }
}

proof fn lemma_meet_known(known: Seq<RegistryRow>, e: RegistryRow)
    requires
        meet(known, e) is Known,
    ensures
        exists|i: int| 0 <= i < known.len() && (#[trigger] known[i]).cid == e.cid && known[i].id
            == e.id,
    decreases known.len(),
{
    if known[0].cid == e.cid && known[0].id == e.id {
    } else {
        lemma_meet_known(known.skip(1), e);
        let i = choose|i: int|
            0 <= i < known.skip(1).len() && (#[trigger] known.skip(1)[i]).cid == e.cid
                && known.skip(1)[i].id == e.id;
        assert(known[i + 1] == known.skip(1)[i]);
    }
}

/// A merged list tells its spaces apart, by id and by context id, and has lost none of them.
pub proof fn a_merged_list_is_consistent(rows: Seq<RegistryRow>)
    requires
        gather(rows) is Ok,
    ensures
        forall|i: int, j: int|
            0 <= i < j < gather(rows)->Ok_0.len() ==> (#[trigger] gather(rows)->Ok_0[i]).cid != (
            #[trigger] gather(rows)->Ok_0[j]).cid && gather(rows)->Ok_0[i].id != gather(
                rows,
            )->Ok_0[j].id,
        forall|k: int|
            0 <= k < rows.len() ==> exists|i: int|
                0 <= i < gather(rows)->Ok_0.len() && (#[trigger] gather(rows)->Ok_0[i]).cid == (
                #[trigger] rows[k]).cid && gather(rows)->Ok_0[i].id == rows[k].id,
    decreases rows.len(),
{
    if rows.len() > 0 {
        let front = rows.drop_last();
        a_merged_list_is_consistent(front);
        let known = gather(front)->Ok_0;
        let all = gather(rows)->Ok_0;
        let e = rows.last();
        match meet(known, e) {
            Meeting::New => {
                lemma_meet_new(known, e);
                assert(all[known.len() as int] == e);
            },
            Meeting::Known => {
                lemma_meet_known(known, e);
            },
            Meeting::Conflict(_) => {},
        }
        assert forall|k: int| 0 <= k < rows.len() implies exists|i: int|
            0 <= i < all.len() && (#[trigger] all[i]).cid == (#[trigger] rows[k]).cid && all[i].id
                == rows[k].id by {
            if k < front.len() {
                assert(front[k] == rows[k]);
                let i = choose|i: int|
                    0 <= i < known.len() && (#[trigger] known[i]).cid == front[k].cid
                        && known[i].id == front[k].id;
                assert(all[i] == known[i]);
            }
        }
    }
}

/// Two entries that share an id but no context id, or a context id but no id.
pub open spec fn contradict(a: RegistryRow, b: RegistryRow) -> bool {
    (a.cid == b.cid) != (a.id == b.id)
}

proof fn lemma_meet_conflict(known: Seq<RegistryRow>, e: RegistryRow)
    requires
        meet(known, e) is Conflict,
    ensures
        exists|i: int| 0 <= i < known.len() && contradict(#[trigger] known[i], e),
    decreases known.len(),
{
    if contradict(known[0], e) {
    } else {
        lemma_meet_conflict(known.skip(1), e);
        let i = choose|i: int|
            0 <= i < known.skip(1).len() && contradict(#[trigger] known.skip(1)[i], e);
        assert(known[i + 1] == known.skip(1)[i]);
    }
}

proof fn lemma_gather_invents_nothing(rows: Seq<RegistryRow>)
    requires
        gather(rows) is Ok,
    ensures
        forall|i: int|
            0 <= i < gather(rows)->Ok_0.len() ==> rows.contains(#[trigger] gather(rows)->Ok_0[i]),
    decreases rows.len(),
{
    if rows.len() > 0 {
        let front = rows.drop_last();
        lemma_gather_invents_nothing(front);
        let known = gather(front)->Ok_0;
        let all = gather(rows)->Ok_0;
        assert forall|i: int| 0 <= i < all.len() implies rows.contains(#[trigger] all[i]) by {
            if i < known.len() {
                assert(all[i] == known[i]);
                let k = choose|k: int| 0 <= k < front.len() && front[k] == known[i];
                assert(rows[k] == known[i]);
            } else {
                assert(rows[rows.len() - 1] == rows.last());
            }
        }
    }
}

/// Two lists are merged unless an entry of theirs contradicts another: one id never stands for
/// two machines, nor one machine for two ids. What comes out has been there before.
pub proof fn a_merge_is_refused_for_cause(rows: Seq<RegistryRow>)
    ensures
        gather(rows) is Err <==> exists|i: int, j: int|
            0 <= i < j < rows.len() && contradict(#[trigger] rows[i], #[trigger] rows[j]),
        gather(rows) matches Ok(merged) ==> forall|k: int|
            0 <= k < merged.len() ==> rows.contains(#[trigger] merged[k]),
    decreases rows.len(),
{
    if rows.len() > 0 {
        let front = rows.drop_last();
        a_merge_is_refused_for_cause(front);
        let e = rows.last();
        match gather(front) {
            Err(_) => {
                let (i, j) = choose|i: int, j: int|
                    0 <= i < j < front.len() && contradict(#[trigger] front[i], #[trigger] front[j]);
                assert(contradict(rows[i], rows[j]));
            },
            Ok(known) => {
                a_merged_list_is_consistent(front);
                match meet(known, e) {
                    Meeting::Conflict(_) => {
                        lemma_meet_conflict(known, e);
                        let i = choose|i: int|
                            0 <= i < known.len() && contradict(#[trigger] known[i], e);
                        assert(front.contains(known[i]));
                        let k = choose|k: int| 0 <= k < front.len() && front[k] == known[i];
                        assert(contradict(rows[k], rows[rows.len() - 1]));
                    },
                    _ => {
                        lemma_gather_invents_nothing(rows);
                        if meet(known, e) is New {
                            lemma_meet_new(known, e);
                        } else {
                            lemma_meet_known(known, e);
                        }
                        assert forall|i: int, j: int| 0 <= i < j < rows.len() implies !contradict(
                            #[trigger] rows[i],
                            #[trigger] rows[j],
                        ) by {
                            if j < front.len() {
                                assert(!contradict(front[i], front[j]));
                            } else {
                                assert(front[i] == rows[i]);
                                let m = choose|m: int|
                                    0 <= m < known.len() && (#[trigger] known[m]).cid
                                        == front[i].cid && known[m].id == front[i].id;
                                if meet(known, e) is Known {
                                    let n = choose|n: int|
                                        0 <= n < known.len() && (#[trigger] known[n]).cid == e.cid
                                            && known[n].id == e.id;
                                    assert(m < n || n < m || m == n);
                                    assert(m != n ==> known[m].cid != known[n].cid && known[m].id
                                        != known[n].id);
                                }
                            }
                        }
                    },
                }
            },
        }
    }
}

/// Two entries that contradict each other are told by what they share: the number under which two
/// spaces stand, or the name that stands for two numbers.
pub proof fn a_contradiction_is_told(known: RegistryRow, e: RegistryRow)
    requires
        contradict(known, e),
    ensures
        known.cid == e.cid ==> meet(seq![known], e) == Meeting::Conflict(
            "конфликт cid "@ + dec(e.cid as nat) + ": id "@ + quoted(known.id) + " и "@ + quoted(e.id)
                + " указывают один и тот же cid"@,
        ),
        known.id == e.id ==> meet(seq![known], e) == Meeting::Conflict(
            "конфликт id "@ + quoted(e.id) + ": cid "@ + dec(known.cid as nat) + " и "@ + dec(
                e.cid as nat,
            ) + " назначены одному id"@,
        ),
{
    assert(seq![known][0] == known);
}

// ---------------------------------------------------------------------------------------------
// The command line
// ---------------------------------------------------------------------------------------------

pub const DEFAULT_STATE_DIR: &'static str = "/var/lib/miyorios";

pub const DEFAULT_RUN_DIR: &'static str = "/run/miyorios";

pub const DEFAULT_GROUP: &'static str = "miyori";

pub const DEFAULT_REGISTRY: &'static str = "/etc/miyorios/spaces.toml";

/// How the daemon is told to run.
pub struct ServerConfig {
    pub state_dir: String,
    pub run_dir: String,
    pub group: String,
    pub registry: String,
    pub build_uid: Option<u32>,
}

#[verifier::ext_equal]
pub struct ServerView {
    pub state_dir: Seq<char>,
    pub run_dir: Seq<char>,
    pub group: Seq<char>,
    pub registry: Seq<char>,
    pub build_uid: Option<u32>,
}

impl View for ServerConfig {
    type V = ServerView;

    open spec fn view(&self) -> ServerView {
        ServerView {
            state_dir: self.state_dir@,
            run_dir: self.run_dir@,
            group: self.group@,
            registry: self.registry@,
            build_uid: self.build_uid,
        }
    }
}

pub open spec fn default_server() -> ServerView {
    ServerView {
        state_dir: DEFAULT_STATE_DIR@,
        run_dir: DEFAULT_RUN_DIR@,
        group: DEFAULT_GROUP@,
        registry: DEFAULT_REGISTRY@,
        build_uid: None,
    }
}

pub open spec fn no_value(flag: Seq<char>) -> Seq<char> {
    flag + " без значения"@
}

pub open spec fn unknown_argument(arg: Seq<char>) -> Seq<char> {
    "неизвестный аргумент "@ + arg
}

pub open spec fn is_server_flag(arg: Seq<char>) -> bool {
    arg == "--state-dir"@ || arg == "--run-dir"@ || arg == "--group"@ || arg == "--registry"@ || arg
        == "--build-uid"@
}

/// One flag with its value.
pub open spec fn with_flag(c: ServerView, flag: Seq<char>, value: Seq<char>) -> Result<
    ServerView,
    Seq<char>,
> {
    if flag == "--state-dir"@ {
        Ok(ServerView { state_dir: value, ..c })
    } else if flag == "--run-dir"@ {
        Ok(ServerView { run_dir: value, ..c })
    } else if flag == "--group"@ {
        Ok(ServerView { group: value, ..c })
    } else if flag == "--registry"@ {
        Ok(ServerView { registry: value, ..c })
    } else {
        match parse_dec(value, u32::MAX as nat) {
            Some(uid) => Ok(ServerView { build_uid: Some(uid as u32), ..c }),
            None => Err(
                "--build-uid "@ + quoted(value) + " не является числом: "@ + number_fault(
                    value,
                    u32::MAX as nat,
                ),
            ),
        }
    }
}

/// What the arguments say, read from the left; a later flag overrides an earlier one.
pub open spec fn server_of(args: Seq<Seq<char>>, c: ServerView) -> Result<ServerView, Seq<char>>
    decreases args.len(),
{
    if args.len() == 0 {
        Ok(c)
    } else if !is_server_flag(args[0]) {
        Err(unknown_argument(args[0]))
    } else if args.len() == 1 {
        Err(no_value(args[0]))
    } else {
        match with_flag(c, args[0], args[1]) {
            Ok(d) => server_of(args.skip(2), d),
            Err(e) => Err(e),
        }
    }
}

/// Reads the arguments of the daemon.
pub fn server_args(args: &Vec<String>) -> (r: Result<ServerConfig, String>)
    ensures
        match (r, server_of(texts(args@), default_server())) {
            (Ok(c), Ok(d)) => c@ == d,
            (Err(m), Err(words)) => m@ == words,
            _ => false,
        },
{
    let ghost all = texts(args@);
    let mut c = ServerConfig {
        state_dir: DEFAULT_STATE_DIR.to_owned(),
        run_dir: DEFAULT_RUN_DIR.to_owned(),
        group: DEFAULT_GROUP.to_owned(),
        registry: DEFAULT_REGISTRY.to_owned(),
        build_uid: None,
    };
    assert(all.skip(0) =~= all);
    let mut i: usize = 0;
    while i < args.len()
        invariant
            i <= args@.len(),
            all == texts(args@),
            server_of(all.skip(i as int), c@) == server_of(all, default_server()),
        decreases args@.len() - i,
    {
        let arg = args[i].as_str();
        let ghost rest = all.skip(i as int);
        assert(rest[0] == arg@);
        let is_state = str_equal(arg, "--state-dir");
        let is_run = str_equal(arg, "--run-dir");
        let is_group = str_equal(arg, "--group");
        let is_registry = str_equal(arg, "--registry");
        if !(is_state || is_run || is_group || is_registry || str_equal(arg, "--build-uid")) {
            return Err("неизвестный аргумент ".to_owned().concat(arg));
        }
        if i + 1 >= args.len() {
            return Err(arg.to_owned().concat(" без значения"));
        }
        let value = &args[i + 1];
        assert(rest[1] == value@);
        let ghost before = c@;
        if is_state {
            c.state_dir = value.clone();
        } else if is_run {
            c.run_dir = value.clone();
        } else if is_group {
            c.group = value.clone();
        } else if is_registry {
            c.registry = value.clone();
        } else {
            match str_to_u32(value.as_str()) {
                Some(uid) => {
                    c.build_uid = Some(uid);
                },
                None => {
                    return Err(
                        "--build-uid ".to_owned().concat(quote(value.as_str()).as_str()).concat(
                            " не является числом: ",
                        ).concat(
                            why_no_number(&chars_of(value.as_str()), u32::MAX as u64).as_str(),
                        ),
                    );
                },
            }
        }
        assert(with_flag(before, rest[0], rest[1]) == Ok::<ServerView, Seq<char>>(c@));
        assert(rest.skip(2) =~= all.skip(i + 2));
        i = i + 2;
    }
    assert(all.skip(i as int) =~= seq![]);
    Ok(c)
}

/// A flag at the end of the command line sets what it names and leaves the rest as the
/// arguments before it have it.
pub proof fn a_flag_sets_what_it_names(
    args: Seq<Seq<char>>,
    flag: Seq<char>,
    value: Seq<char>,
    c: ServerView,
)
    requires
        server_of(args, c) is Ok,
    ensures
        ({
            let before = server_of(args, c)->Ok_0;
            let r = server_of(args + seq![flag, value], c);
            &&& r is Ok <==> (flag == "--state-dir"@ || flag == "--run-dir"@ || flag == "--group"@
                || flag == "--registry"@ || (flag == "--build-uid"@ && parse_dec(
                value,
                u32::MAX as nat,
            ) is Some))
            &&& r matches Ok(after) ==> {
                &&& after.state_dir == (if flag == "--state-dir"@ {
                    value
                } else {
                    before.state_dir
                })
                &&& after.run_dir == (if flag == "--run-dir"@ {
                    value
                } else {
                    before.run_dir
                })
                &&& after.group == (if flag == "--group"@ {
                    value
                } else {
                    before.group
                })
                &&& after.registry == (if flag == "--registry"@ {
                    value
                } else {
                    before.registry
                })
                &&& flag == "--build-uid"@ ==> (after.build_uid matches Some(uid) && Some(
                    uid as nat,
                ) == parse_dec(value, u32::MAX as nat))
                &&& flag != "--build-uid"@ ==> after.build_uid == before.build_uid
            }
        }),
    decreases args.len(),
{
    let all = args + seq![flag, value];
    if args.len() == 0 {
        assert(all[0] == flag && all[1] == value);
        assert(all.skip(2) =~= seq![]);
        reveal_with_fuel(server_of, 2);
        lemma_server_flags();
    } else {
        assert(all[0] == args[0] && all[1] == args[1]);
        assert(all.skip(2) =~= args.skip(2) + seq![flag, value]);
        a_flag_sets_what_it_names(args.skip(2), flag, value, with_flag(c, args[0], args[1])->Ok_0);
    }
}

proof fn lemma_server_flags()
    ensures
        "--state-dir"@ != "--run-dir"@,
        "--state-dir"@ != "--group"@,
        "--state-dir"@ != "--registry"@,
        "--state-dir"@ != "--build-uid"@,
        "--run-dir"@ != "--group"@,
        "--run-dir"@ != "--registry"@,
        "--run-dir"@ != "--build-uid"@,
        "--group"@ != "--registry"@,
        "--group"@ != "--build-uid"@,
        "--registry"@ != "--build-uid"@,
{
    reveal_strlit("--state-dir");
    reveal_strlit("--run-dir");
    reveal_strlit("--group");
    reveal_strlit("--registry");
    reveal_strlit("--build-uid");
    assert("--state-dir"@.len() == 11 && "--state-dir"@[2] == 's');
    assert("--build-uid"@.len() == 11 && "--build-uid"@[2] == 'b');
    assert("--run-dir"@.len() == 9 && "--group"@.len() == 7 && "--registry"@.len() == 10);
}

/// What is rendered.
#[derive(Debug, Clone, Copy, PartialEq, Eq, Structural)]
pub enum Kind {
    Nft,
    Registry,
}

/// What to render, and from what.
pub struct RenderConfig {
    pub registry: Option<String>,
    pub state_dir: Option<String>,
    pub kind: Kind,
}

/// The flags of the rendering, as far as they have been read.
#[verifier::ext_equal]
pub struct RenderView {
    pub registry: Option<Seq<char>>,
    pub state_dir: Option<Seq<char>>,
    pub kind: Option<Kind>,
}

pub open spec fn is_render_flag(arg: Seq<char>) -> bool {
    arg == "--registry"@ || arg == "--state-dir"@ || arg == "--kind"@
}

pub open spec fn with_render_flag(c: RenderView, flag: Seq<char>, value: Seq<char>) -> Result<
    RenderView,
    Seq<char>,
> {
    if flag == "--registry"@ {
        Ok(RenderView { registry: Some(value), ..c })
    } else if flag == "--state-dir"@ {
        Ok(RenderView { state_dir: Some(value), ..c })
    } else if value == "nft"@ {
        Ok(RenderView { kind: Some(Kind::Nft), ..c })
    } else if value == "registry"@ {
        Ok(RenderView { kind: Some(Kind::Registry), ..c })
    } else {
        Err("--kind ожидает nft или registry, получено "@ + quoted(value))
    }
}

pub open spec fn render_flags(args: Seq<Seq<char>>, c: RenderView) -> Result<RenderView, Seq<char>>
    decreases args.len(),
{
    if args.len() == 0 {
        Ok(c)
    } else if !is_render_flag(args[0]) {
        Err(unknown_argument(args[0]))
    } else if args.len() == 1 {
        Err(no_value(args[0]))
    } else {
        match with_render_flag(c, args[0], args[1]) {
            Ok(d) => render_flags(args.skip(2), d),
            Err(e) => Err(e),
        }
    }
}

/// What the arguments of the rendering say. It needs a source, and to be told what to render.
pub open spec fn render_of(args: Seq<Seq<char>>) -> Result<RenderView, Seq<char>> {
    match render_flags(args, RenderView { registry: None, state_dir: None, kind: None }) {
        Err(e) => Err(e),
        Ok(c) => if c.registry is None && c.state_dir is None {
            Err("нужен --registry <файл> либо --state-dir <каталог>"@)
        } else if c.kind is None {
            Err("нужен --kind nft|registry"@)
        } else {
            Ok(c)
        },
    }
}

/// Reads the arguments of the rendering.
pub fn render_args(args: &Vec<String>) -> (r: Result<RenderConfig, String>)
    ensures
        match (r, render_of(texts(args@))) {
            (Ok(c), Ok(d)) => opt_text(c.registry) == d.registry && opt_text(c.state_dir)
                == d.state_dir && Some(c.kind) == d.kind,
            (Err(m), Err(words)) => m@ == words,
            _ => false,
        },
{
    let ghost all = texts(args@);
    let ghost none = RenderView { registry: None, state_dir: None, kind: None };
    let mut registry: Option<String> = None;
    let mut state_dir: Option<String> = None;
    let mut kind: Option<Kind> = None;
    assert(all.skip(0) =~= all);
    let mut i: usize = 0;
    while i < args.len()
        invariant
            i <= args@.len(),
            all == texts(args@),
            none == (RenderView { registry: None, state_dir: None, kind: None }),
            render_flags(
                all.skip(i as int),
                RenderView {
                    registry: opt_text(registry),
                    state_dir: opt_text(state_dir),
                    kind,
                },
            ) == render_flags(all, none),
        decreases args@.len() - i,
    {
        let arg = args[i].as_str();
        let ghost rest = all.skip(i as int);
        assert(rest[0] == arg@);
        let is_registry = str_equal(arg, "--registry");
        let is_state = str_equal(arg, "--state-dir");
        if !(is_registry || is_state || str_equal(arg, "--kind")) {
            return Err("неизвестный аргумент ".to_owned().concat(arg));
        }
        if i + 1 >= args.len() {
            return Err(arg.to_owned().concat(" без значения"));
        }
        let value = &args[i + 1];
        assert(rest[1] == value@);
        let ghost before = RenderView {
            registry: opt_text(registry),
            state_dir: opt_text(state_dir),
            kind,
        };
        if is_registry {
            registry = Some(value.clone());
        } else if is_state {
            state_dir = Some(value.clone());
        } else if str_equal(value.as_str(), "nft") {
            kind = Some(Kind::Nft);
        } else if str_equal(value.as_str(), "registry") {
            kind = Some(Kind::Registry);
        } else {
            return Err(
                "--kind ожидает nft или registry, получено ".to_owned().concat(
                    quote(value.as_str()).as_str(),
                ),
            );
        }
        assert(with_render_flag(before, rest[0], rest[1]) == Ok::<RenderView, Seq<char>>(
            RenderView { registry: opt_text(registry), state_dir: opt_text(state_dir), kind },
        ));
        assert(rest.skip(2) =~= all.skip(i + 2));
        i = i + 2;
    }
    assert(all.skip(i as int) =~= seq![]);
    if registry.is_none() && state_dir.is_none() {
        return Err("нужен --registry <файл> либо --state-dir <каталог>".to_owned());
    }
    match kind {
        Some(kind) => Ok(RenderConfig { registry, state_dir, kind }),
        None => Err("нужен --kind nft|registry".to_owned()),
    }
}

/// The last source and the last kind of rendering that are named count, and without a source or
/// a kind there is no rendering.
pub proof fn a_render_flag_sets_what_it_names(
    args: Seq<Seq<char>>,
    flag: Seq<char>,
    value: Seq<char>,
)
    requires
        render_of(args) is Ok,
    ensures
        ({
            let before = render_of(args)->Ok_0;
            let r = render_of(args + seq![flag, value]);
            &&& before.registry is Some || before.state_dir is Some
            &&& before.kind is Some
            &&& r is Ok <==> (flag == "--registry"@ || flag == "--state-dir"@ || (flag == "--kind"@
                && (value == "nft"@ || value == "registry"@)))
            &&& r matches Ok(after) ==> {
                &&& after.registry == (if flag == "--registry"@ {
                    Some(value)
                } else {
                    before.registry
                })
                &&& after.state_dir == (if flag == "--state-dir"@ {
                    Some(value)
                } else {
                    before.state_dir
                })
                &&& after.kind == (if flag != "--kind"@ {
                    before.kind
                } else if value == "nft"@ {
                    Some(Kind::Nft)
                } else {
                    Some(Kind::Registry)
                })
            }
        }),
{
    lemma_render_flag_last(
        args,
        flag,
        value,
        RenderView { registry: None, state_dir: None, kind: None },
    );
    reveal_strlit("--registry");
    reveal_strlit("--state-dir");
    reveal_strlit("--kind");
    reveal_strlit("nft");
    reveal_strlit("registry");
    assert("--registry"@.len() == 10 && "--state-dir"@.len() == 11 && "--kind"@.len() == 6);
    assert("nft"@.len() == 3 && "registry"@.len() == 8);
}

proof fn lemma_render_flag_last(
    args: Seq<Seq<char>>,
    flag: Seq<char>,
    value: Seq<char>,
    c: RenderView,
)
    requires
        render_flags(args, c) is Ok,
    ensures
        render_flags(args + seq![flag, value], c) == (if is_render_flag(flag) {
            with_render_flag(render_flags(args, c)->Ok_0, flag, value)
        } else {
            Err(unknown_argument(flag))
        }),
    decreases args.len(),
{
    let all = args + seq![flag, value];
    if args.len() == 0 {
        assert(all[0] == flag && all[1] == value);
        assert(all.skip(2) =~= seq![]);
        reveal_with_fuel(render_flags, 2);
    } else {
        assert(all[0] == args[0] && all[1] == args[1]);
        assert(all.skip(2) =~= args.skip(2) + seq![flag, value]);
        lemma_render_flag_last(
            args.skip(2),
            flag,
            value,
            with_render_flag(c, args[0], args[1])->Ok_0,
        );
    }
}

} // verus!
