//! The tap of a space and what is observed of the network.
//!
//! Bridges, the uplink device and the network machine itself are not the daemon's: it only
//! looks at them.
use crate::bytes::{contains_text, lossy_text, utf8_lossy};
use crate::names::{space_tap, tap_name};
use crate::order::{lemma_insert_at, lemma_sort_by_contains, sort_by, str_le, text_le};
use crate::paths::{file_name, path_file_name};
use crate::text::{
    char_texts, chars_find, chars_lines, chars_of, chars_rfind, chars_strip_prefix, chars_trim,
    chars_words, dec, first_pos, head_to, has_prefix, last_pos, lines, opt_text, occurs, parse_dec,
    push_text, str_equal, str_to_u32, str_trim, string_of, strip_prefix, tail_from, texts, trim,
    u32_to_string, words,
};
use vstd::prelude::*;
use vstd::utf8::encode_utf8;

verus! {

pub const BRIDGE: &'static str = "br-spaces";

pub const CAPTIVE_BRIDGE: &'static str = "br-captive";

/// Where the uplink device sits unless the environment says otherwise.
pub const DEFAULT_UPLINK_PCI: &'static str = "0000:0c:00.0";

/// How much of the end of the network machine's console is read.
pub const CONSOLE_TAIL_BYTES: u64 = 64 * 1024;

/// How much of the rules is shown. What is cut off is announced.
pub const RULESET_MAX_CHARS: usize = 120 * 1024;

/// The texts of commands, each a program and its arguments.
pub open spec fn command_texts(commands: Seq<Vec<String>>) -> Seq<Seq<Seq<char>>> {
    commands.map_values(|c: Vec<String>| texts(c@))
}

pub open spec fn link_show(name: Seq<char>) -> Seq<Seq<char>> {
    seq!["ip"@, "link"@, "show"@, name]
}

/// The command that succeeds exactly when the link is there.
pub fn link_exists(name: &str) -> (r: Vec<String>)
    ensures
        texts(r@) == link_show(name@),
{
    let mut c: Vec<String> = Vec::new();
    assert(texts(c@) =~= seq![]);
    push_text(&mut c, "ip");
    push_text(&mut c, "link");
    push_text(&mut c, "show");
    push_text(&mut c, name);
    c
}

/// The command that succeeds exactly when the bridge of the spaces is there.
pub fn bridge_exists() -> (r: Vec<String>)
    ensures
        texts(r@) == link_show(BRIDGE@),
{
    link_exists(BRIDGE)
}

/// The commands that raise the tap of a space. The port is isolated before it comes up: in
/// between, the space would see its neighbours.
pub open spec fn tap_up_commands(cid: u32, uid: u32) -> Seq<Seq<Seq<char>>> {
    let tap = tap_name(cid);
    seq![
        seq![
            "ip"@,
            "tuntap"@,
            "add"@,
            "dev"@,
            tap,
            "mode"@,
            "tap"@,
            "user"@,
            dec(uid as nat),
        ],
        seq!["ip"@, "link"@, "set"@, tap, "master"@, BRIDGE@],
        seq!["bridge"@, "link"@, "set"@, "dev"@, tap, "isolated"@, "on"@],
        seq!["ip"@, "link"@, "set"@, tap, "up"@],
    ]
}

pub open spec fn tap_down_command(cid: u32) -> Seq<Seq<char>> {
    seq!["ip"@, "link"@, "del"@, tap_name(cid)]
}

fn push_command(commands: &mut Vec<Vec<String>>, c: Vec<String>)
    ensures
        command_texts(final(commands)@) == command_texts(old(commands)@).push(texts(c@)),
{
    commands.push(c);
    assert(command_texts(commands@) =~= command_texts(old(commands)@).push(texts(c@)));
}

pub fn create_tap(cid: u32, uid: u32) -> (r: Vec<Vec<String>>)
    ensures
        command_texts(r@) == tap_up_commands(cid, uid),
{
    let tap = space_tap(cid);
    let owner = u32_to_string(uid);
    let mut commands: Vec<Vec<String>> = Vec::new();
    assert(command_texts(commands@) =~= seq![]);

    let mut c: Vec<String> = Vec::new();
    assert(texts(c@) =~= seq![]);
    push_text(&mut c, "ip");
    push_text(&mut c, "tuntap");
    push_text(&mut c, "add");
    push_text(&mut c, "dev");
    push_text(&mut c, tap.as_str());
    push_text(&mut c, "mode");
    push_text(&mut c, "tap");
    push_text(&mut c, "user");
    push_text(&mut c, owner.as_str());
    push_command(&mut commands, c);

    let mut c: Vec<String> = Vec::new();
    assert(texts(c@) =~= seq![]);
    push_text(&mut c, "ip");
    push_text(&mut c, "link");
    push_text(&mut c, "set");
    push_text(&mut c, tap.as_str());
    push_text(&mut c, "master");
    push_text(&mut c, BRIDGE);
    push_command(&mut commands, c);

    let mut c: Vec<String> = Vec::new();
    assert(texts(c@) =~= seq![]);
    push_text(&mut c, "bridge");
    push_text(&mut c, "link");
    push_text(&mut c, "set");
    push_text(&mut c, "dev");
    push_text(&mut c, tap.as_str());
    push_text(&mut c, "isolated");
    push_text(&mut c, "on");
    push_command(&mut commands, c);

    let mut c: Vec<String> = Vec::new();
    assert(texts(c@) =~= seq![]);
    push_text(&mut c, "ip");
    push_text(&mut c, "link");
    push_text(&mut c, "set");
    push_text(&mut c, tap.as_str());
    push_text(&mut c, "up");
    push_command(&mut commands, c);
    assert(command_texts(commands@).len() == 4);
    assert(command_texts(commands@)[3] =~= tap_up_commands(cid, uid)[3]);
    assert(command_texts(commands@)[2] =~= tap_up_commands(cid, uid)[2]);
    assert(command_texts(commands@)[1] =~= tap_up_commands(cid, uid)[1]);
    assert(command_texts(commands@)[0] =~= tap_up_commands(cid, uid)[0]);
    assert(command_texts(commands@) =~= tap_up_commands(cid, uid));
    commands
}

pub fn delete_tap(cid: u32) -> (r: Vec<String>)
    ensures
        texts(r@) == tap_down_command(cid),
{
    let tap = space_tap(cid);
    let mut c: Vec<String> = Vec::new();
    assert(texts(c@) =~= seq![]);
    push_text(&mut c, "ip");
    push_text(&mut c, "link");
    push_text(&mut c, "del");
    push_text(&mut c, tap.as_str());
    c
}

/// The command that takes down a tap that a killed machine has left, if there is one.
pub fn reap_leftover_tap(cid: u32, tap_exists: bool) -> (r: Option<Vec<String>>)
    ensures
        r is Some <==> tap_exists,
        r matches Some(c) ==> texts(c@) == tap_down_command(cid),
{
    if tap_exists {
        Some(delete_tap(cid))
    } else {
        None
    }
}

// ---------------------------------------------------------------------------------------------
// Taps
// ---------------------------------------------------------------------------------------------

pub struct TapStatus {
    pub name: String,
    pub isolated: Option<bool>,
}

/// A flag as the kernel prints it; anything else says nothing about isolation.
pub open spec fn isolated_flag(raw: Seq<char>) -> Option<bool> {
    if trim(raw) == "0"@ {
        Some(false)
    } else if trim(raw) == "1"@ {
        Some(true)
    } else {
        None
    }
}

pub fn parse_isolated_flag(raw: &str) -> (r: Option<bool>)
    ensures
        r == isolated_flag(raw@),
{
    let flag = str_trim(raw);
    proof {
        reveal_strlit("0");
        reveal_strlit("1");
        assert("0"@[0] != "1"@[0]);
    }
    if str_equal(flag.as_str(), "0") {
        Some(false)
    } else if str_equal(flag.as_str(), "1") {
        Some(true)
    } else {
        None
    }
}

/// A network link: its name, and the text of its isolation flag where that could be read.
pub struct LinkEntry {
    pub name: String,
    pub isolated: Option<String>,
}

/// What is shown of a link.
pub open spec fn tap_of(link: LinkEntry) -> (Seq<char>, Option<bool>) {
    (
        link.name@,
        match link.isolated {
            Some(raw) => isolated_flag(raw@),
            None => None,
        },
    )
}

/// The taps of spaces among the links, in the order in which they came.
pub open spec fn taps_among(links: Seq<LinkEntry>) -> Seq<(Seq<char>, Option<bool>)>
    decreases links.len(),
{
    if links.len() == 0 {
        seq![]
    } else if has_prefix(links.last().name@, "tap-space-"@) {
        taps_among(links.drop_last()).push(tap_of(links.last()))
    } else {
        taps_among(links.drop_last())
    }
}

pub open spec fn tap_views(taps: Seq<TapStatus>) -> Seq<(Seq<char>, Option<bool>)> {
    taps.map_values(|t: TapStatus| (t.name@, t.isolated))
}

pub open spec fn by_name() -> spec_fn((Seq<char>, Option<bool>), (Seq<char>, Option<bool>)) -> bool {
    |a: (Seq<char>, Option<bool>), b: (Seq<char>, Option<bool>)| text_le(a.0, b.0)
}

/// The taps of spaces, by name.
pub fn list_space_taps(links: &Vec<LinkEntry>) -> (r: Vec<TapStatus>)
    ensures
        tap_views(r@) == sort_by(taps_among(links@), by_name()),
{
    let mut out: Vec<TapStatus> = Vec::new();
    assert(links@.take(0) =~= seq![]);
    assert(tap_views(out@) =~= seq![]);
    for i in 0..links.len()
        invariant
            tap_views(out@) == sort_by(taps_among(links@.take(i as int)), by_name()),
    {
        let ghost before = taps_among(links@.take(i as int));
        assert(links@.take(i + 1).drop_last() =~= links@.take(i as int));
        assert(links@.take(i + 1).last() == links@[i as int]);
        let name = chars_of(links[i].name.as_str());
        if chars_strip_prefix(&name, "tap-space-").is_some() {
            let isolated = match &links[i].isolated {
                Some(raw) => parse_isolated_flag(raw.as_str()),
                None => None,
            };
            let tap = TapStatus { name: links[i].name.clone(), isolated };
            let ghost x = (tap.name@, tap.isolated);
            let ghost sorted = tap_views(out@);
            let mut pos: usize = out.len();
            while pos > 0 && !str_le(out[pos - 1].name.as_str(), tap.name.as_str())
                invariant
                    pos <= out@.len(),
                    sorted == tap_views(out@),
                    x == (tap.name@, tap.isolated),
                    forall|j: int| pos <= j < sorted.len() ==> !by_name()(#[trigger] sorted[j], x),
                decreases pos,
            {
                assert(sorted[pos - 1] == (out@[pos - 1].name@, out@[pos - 1].isolated));
                pos = pos - 1;
            }
            proof {
                if pos > 0 {
                    assert(sorted[pos - 1] == (out@[pos - 1].name@, out@[pos - 1].isolated));
                }
                lemma_insert_at(sorted, x, by_name(), pos as int);
                assert(before.push(x).drop_last() =~= before);
                assert(sort_by(before.push(x), by_name()) == sorted.insert(pos as int, x));
            }
            out.insert(pos, tap);
            assert(tap_views(out@) =~= sorted.insert(pos as int, x));
        }
    }
    assert(links@.take(links@.len() as int) =~= links@);
    out
}

proof fn lemma_taps_among(links: Seq<LinkEntry>, k: int)
    requires
        0 <= k < links.len(),
        has_prefix(links[k].name@, "tap-space-"@),
    ensures
        taps_among(links).contains(tap_of(links[k])),
    decreases links.len(),
{
    let front = links.drop_last();
    if k < front.len() {
        lemma_taps_among(front, k);
        let i = choose|i: int| 0 <= i < taps_among(front).len() && taps_among(front)[i] == tap_of(
            links[k],
        );
        assert(taps_among(links)[i] == tap_of(links[k]));
    } else {
        let all = taps_among(links);
        assert(all[all.len() - 1] == tap_of(links[k]));
    }
}

/// The tap of every space that is up is shown, with the isolation of its port as the kernel tells
/// it: `1` is isolated, `0` is not, and what cannot be read is unknown.
pub proof fn the_tap_of_a_space_is_shown(links: Seq<LinkEntry>, k: int, cid: u32, raw: Seq<char>)
    requires
        0 <= k < links.len(),
        links[k].name@ == tap_name(cid),
        opt_text(links[k].isolated) == Some(raw) || links[k].isolated is None,
    ensures
        ({
            let shown = sort_by(taps_among(links), by_name());
            &&& links[k].isolated is None ==> shown.contains((tap_name(cid), None))
            &&& links[k].isolated is Some && trim(raw) == "1"@ ==> shown.contains(
                (tap_name(cid), Some(true)),
            )
            &&& links[k].isolated is Some && trim(raw) == "0"@ ==> shown.contains(
                (tap_name(cid), Some(false)),
            )
            &&& links[k].isolated is Some && trim(raw).len() != 1 ==> shown.contains(
                (tap_name(cid), None),
            )
        }),
{
    reveal_strlit("0");
    reveal_strlit("1");
    assert("0"@[0] == '0' && "1"@[0] == '1');
    assert(tap_name(cid).subrange(0, "tap-space-"@.len() as int) =~= "tap-space-"@);
    lemma_taps_among(links, k);
    lemma_sort_by_contains(taps_among(links), by_name(), tap_of(links[k]));
}

// ---------------------------------------------------------------------------------------------
// The uplink device
// ---------------------------------------------------------------------------------------------

pub struct PciStatus {
    pub address: String,
    pub present: bool,
    pub driver: Option<String>,
}

/// The state of a device, from whether its directory is there and where its `driver` link
/// points.
pub fn pci_status(addr: &str, present: bool, driver_link: Option<&str>) -> (r: PciStatus)
    ensures
        r.address@ == addr@,
        r.present == present,
        opt_text(r.driver) == (match driver_link {
            Some(target) => file_name(target@),
            None => None,
        }),
{
    let driver = match driver_link {
        Some(target) => path_file_name(target),
        None => None,
    };
    PciStatus { address: addr.to_owned(), present, driver }
}

// ---------------------------------------------------------------------------------------------
// The network machine
// ---------------------------------------------------------------------------------------------

#[derive(Debug, PartialEq, Eq)]
pub struct TunnelBlock {
    pub ifc: String,
    pub set: String,
    pub route: String,
}

#[verifier::ext_equal]
pub struct TunnelFacts {
    pub ifc: Seq<char>,
    pub set: Seq<char>,
    pub route: Seq<char>,
}

impl View for TunnelBlock {
    type V = TunnelFacts;

    open spec fn view(&self) -> TunnelFacts {
        TunnelFacts { ifc: self.ifc@, set: self.set@, route: self.route@ }
    }
}

pub open spec fn opt_tunnel(t: Option<TunnelBlock>) -> Option<TunnelFacts> {
    match t {
        Some(t) => Some(t@),
        None => None,
    }
}

pub struct MiyoriNetStatus {
    pub running: bool,
    pub pid: Option<u32>,
    pub uplink: Option<String>,
    pub tunnel: Option<TunnelBlock>,
}

/// Only the machine of the network has an uplink among its parameters.
pub open spec fn is_miyori_net(cmdline: Seq<u8>) -> bool {
    occurs(cmdline, encode_utf8("qemu-system-x86_64"@)) && occurs(
        cmdline,
        encode_utf8("MIYORI_UPLINK="@),
    )
}

pub fn cmdline_is_miyori_net(cmdline: &Vec<u8>) -> (r: bool)
    ensures
        r == is_miyori_net(cmdline@),
{
    proof {
        reveal_strlit("qemu-system-x86_64");
        reveal_strlit("MIYORI_UPLINK=");
    }
    contains_text(cmdline, "qemu-system-x86_64") && contains_text(cmdline, "MIYORI_UPLINK=")
}

/// A process: the name of its directory and its command line.
pub struct ProcEntry {
    pub name: String,
    pub cmdline: Vec<u8>,
}

/// The process number of an entry that is the network machine.
pub open spec fn net_pid(entry: ProcEntry) -> Option<nat> {
    match parse_dec(entry.name@, u32::MAX as nat) {
        Some(pid) => if is_miyori_net(entry.cmdline@) {
            Some(pid)
        } else {
            None
        },
        None => None,
    }
}

/// The first process that is the network machine.
pub fn find_miyori_net(processes: &Vec<ProcEntry>) -> (r: Option<(u32, usize)>)
    ensures
        match r {
            Some((pid, at)) => {
                &&& at < processes@.len()
                &&& net_pid(processes@[at as int]) == Some(pid as nat)
                &&& forall|j: int| 0 <= j < at ==> net_pid(#[trigger] processes@[j]) is None
            },
            None => forall|j: int|
                0 <= j < processes@.len() ==> net_pid(#[trigger] processes@[j]) is None,
        },
{
    for i in 0..processes.len()
        invariant
            forall|j: int| 0 <= j < i ==> net_pid(#[trigger] processes@[j]) is None,
    {
        match str_to_u32(processes[i].name.as_str()) {
            Some(pid) => {
                if cmdline_is_miyori_net(&processes[i].cmdline) {
                    return Some((pid, i));
                }
            },
            None => {},
        }
    }
    None
}

/// A text with spaces in place of its null characters.
pub open spec fn nul_to_space(s: Seq<char>) -> Seq<char> {
    s.map_values(
        |c: char|
            if c == '\0' {
                ' '
            } else {
                c
            },
    )
}

/// What follows the prefix in the first word that starts with it.
pub open spec fn first_with_prefix(ws: Seq<Seq<char>>, prefix: Seq<char>) -> Option<Seq<char>>
    decreases ws.len(),
{
    if ws.len() == 0 {
        None
    } else if has_prefix(ws[0], prefix) {
        strip_prefix(ws[0], prefix)
    } else {
        first_with_prefix(ws.skip(1), prefix)
    }
}

pub fn word_after_prefix(s: &Vec<char>, prefix: &str) -> (r: Option<String>)
    ensures
        opt_text(r) == first_with_prefix(words(s@), prefix@),
{
    let ws = chars_words(s);
    let ghost all = char_texts(ws@);
    assert(all.skip(0) =~= all);
    for i in 0..ws.len()
        invariant
            all == char_texts(ws@),
            all == words(s@),
            first_with_prefix(all.skip(i as int), prefix@) == first_with_prefix(all, prefix@),
    {
        assert(all.skip(i as int)[0] == ws@[i as int]@);
        match chars_strip_prefix(&ws[i], prefix) {
            Some(rest) => return Some(string_of(&rest)),
            None => {},
        }
        assert(all.skip(i as int).skip(1) =~= all.skip(i + 1));
    }
    assert(all.skip(ws@.len() as int) =~= seq![]);
    None
}

/// The uplink named in the text of a command line, whose arguments end in null characters.
pub fn uplink_in_text(text: &str) -> (r: Option<String>)
    ensures
        opt_text(r) == first_with_prefix(words(nul_to_space(text@)), "MIYORI_UPLINK="@),
{
    let mut chars = chars_of(text);
    let len: usize = chars.len();
    for i in 0..len
        invariant
            len == text@.len(),
            chars@.len() == text@.len(),
            forall|j: int| 0 <= j < i ==> chars@[j] == nul_to_space(text@)[j],
            forall|j: int| i <= j < chars@.len() ==> chars@[j] == text@[j],
    {
        if chars[i] == '\0' {
            chars.set(i, ' ');
        }
    }
    assert(chars@ =~= nul_to_space(text@));
    word_after_prefix(&chars, "MIYORI_UPLINK=")
}

pub fn parse_uplink(cmdline: &Vec<u8>) -> (r: Option<String>)
    ensures
        opt_text(r) == first_with_prefix(
            words(nul_to_space(lossy_text(cmdline@))),
            "MIYORI_UPLINK="@,
        ),
{
    let text = utf8_lossy(cmdline);
    uplink_in_text(text.as_str())
}

/// What follows the prefix in the last line that starts with it, both trimmed.
pub open spec fn last_field(rows: Seq<Seq<char>>, prefix: Seq<char>) -> Option<Seq<char>>
    decreases rows.len(),
{
    if rows.len() == 0 {
        None
    } else {
        match strip_prefix(trim(rows.last()), prefix) {
            Some(rest) => Some(trim(rest)),
            None => last_field(rows.drop_last(), prefix),
        }
    }
}

/// The body of the last block between the marks, if it is closed.
pub open spec fn last_block(text: Seq<char>) -> Option<Seq<char>> {
    let open = "---MIYORI-TUNNEL-BEGIN---"@;
    match last_pos(text, open) {
        Some(start) => {
            let body = text.skip(start + open.len());
            match first_pos(body, "---MIYORI-TUNNEL-END---"@) {
                Some(stop) => Some(body.take(stop)),
                None => None,
            }
        },
        None => None,
    }
}

/// The console sees every start of the machine, so its last block decides; a block that lacks
/// one of the three fields says nothing.
pub open spec fn tunnel_in(text: Seq<char>) -> Option<TunnelFacts> {
    match last_block(text) {
        Some(body) => match (
            last_field(lines(body), "TUNNEL-IFC:"@),
            last_field(lines(body), "TUNNEL-SET:"@),
            last_field(lines(body), "TUNNEL-ROUTE:"@),
        ) {
            (Some(ifc), Some(set), Some(route)) => Some(TunnelFacts { ifc, set, route }),
            _ => None,
        },
        None => None,
    }
}

fn field_of(rows: &Vec<Vec<char>>, prefix: &str) -> (r: Option<String>)
    ensures
        opt_text(r) == last_field(char_texts(rows@), prefix@),
{
    let ghost all = char_texts(rows@);
    let mut i: usize = rows.len();
    assert(all.take(i as int) =~= all);
    while i > 0
        invariant
            i <= rows@.len(),
            all == char_texts(rows@),
            last_field(all.take(i as int), prefix@) == last_field(all, prefix@),
        decreases i,
    {
        assert(all.take(i as int).last() == rows@[i - 1]@);
        assert(all.take(i as int).drop_last() =~= all.take(i - 1));
        let line = chars_trim(&rows[i - 1]);
        match chars_strip_prefix(&line, prefix) {
            Some(rest) => {
                let value = chars_trim(&rest);
                return Some(string_of(&value));
            },
            None => {},
        }
        i = i - 1;
    }
    None
}

pub fn parse_last_tunnel_block(text: &str) -> (r: Option<TunnelBlock>)
    ensures
        opt_tunnel(r) == tunnel_in(text@),
{
    let chars = chars_of(text);
    let open = "---MIYORI-TUNNEL-BEGIN---";
    let start: usize = chars_rfind(&chars, open)?;
    let open_len: usize = chars_of(open).len();
    assert(chars.len() <= usize::MAX);
    let body = tail_from(&chars, start + open_len);
    let stop: usize = chars_find(&body, "---MIYORI-TUNNEL-END---")?;
    let body = head_to(&body, stop);
    assert(last_block(text@) == Some(body@));
    let rows = chars_lines(&body);
    let ifc = field_of(&rows, "TUNNEL-IFC:")?;
    let set = field_of(&rows, "TUNNEL-SET:")?;
    let route = field_of(&rows, "TUNNEL-ROUTE:")?;
    Some(TunnelBlock { ifc, set, route })
}

/// What is known of the network machine, from its process and the tail of its console.
pub fn miyori_net_status(
    process: Option<(u32, &Vec<u8>)>,
    console: Option<&Vec<u8>>,
) -> (r: MiyoriNetStatus)
    ensures
        match process {
            None => !r.running && r.pid is None && r.uplink is None && r.tunnel is None,
            Some((pid, cmdline)) => {
                &&& r.running
                &&& r.pid == Some(pid)
                &&& opt_text(r.uplink) == first_with_prefix(
                    words(nul_to_space(lossy_text(cmdline@))),
                    "MIYORI_UPLINK="@,
                )
                &&& opt_tunnel(r.tunnel) == (match console {
                    Some(bytes) => tunnel_in(lossy_text(bytes@)),
                    None => None,
                })
            },
        },
{
    match process {
        None => MiyoriNetStatus { running: false, pid: None, uplink: None, tunnel: None },
        Some((pid, cmdline)) => {
            let tunnel = match console {
                Some(bytes) => {
                    let text = utf8_lossy(bytes);
                    parse_last_tunnel_block(text.as_str())
                },
                None => None,
            };
            MiyoriNetStatus {
                running: true,
                pid: Some(pid),
                uplink: parse_uplink(cmdline),
                tunnel,
            }
        },
    }
}

// ---------------------------------------------------------------------------------------------
// The rules
// ---------------------------------------------------------------------------------------------

pub struct RulesetStatus {
    pub available: bool,
    pub text: String,
    /// How many characters there were before the cut; nothing where nothing was cut.
    pub truncated_from: Option<usize>,
}

/// The words that are shown: the rules, or the reason why they could not be read.
pub open spec fn rules_or_reason(ok: bool, out: Seq<char>, reason: Seq<char>) -> Seq<char> {
    if ok {
        out
    } else if trim(reason).len() == 0 {
        "nft не отдал причину отказа"@
    } else {
        reason
    }
}

pub open spec fn is_ruleset(r: RulesetStatus, ok: bool, shown: Seq<char>, max_chars: nat) -> bool {
    &&& r.available == ok
    &&& if shown.len() > max_chars {
        &&& r.text@ == shown.take(max_chars as int)
        &&& r.truncated_from matches Some(total) && total == shown.len()
    } else {
        r.text@ == shown && r.truncated_from is None
    }
}

/// Rules of which a part is missing are never passed off as the whole.
pub proof fn a_cut_is_announced(r: RulesetStatus, ok: bool, shown: Seq<char>, max_chars: nat)
    requires
        is_ruleset(r, ok, shown, max_chars),
    ensures
        r.text@ != shown ==> r.truncated_from is Some,
        r.truncated_from matches Some(total) ==> r.text@.len() < total,
{
}

pub fn ruleset_from_text(ok: bool, out: &str, reason: &str, max_chars: usize) -> (r: RulesetStatus)
    ensures
        is_ruleset(r, ok, rules_or_reason(ok, out@, reason@), max_chars as nat),
{
    let shown = if ok {
        out.to_owned()
    } else if str_trim(reason).as_str().is_empty() {
        "nft не отдал причину отказа".to_owned()
    } else {
        reason.to_owned()
    };
    let chars = chars_of(shown.as_str());
    if chars.len() > max_chars {
        let cut = head_to(&chars, max_chars);
        RulesetStatus {
            available: ok,
            text: string_of(&cut),
            truncated_from: Some(chars.len()),
        }
    } else {
        RulesetStatus { available: ok, text: shown, truncated_from: None }
    }
}

/// The rules as the tool printed them, or the reason why it failed.
pub fn ruleset_from_output(
    ok: bool,
    stdout: &Vec<u8>,
    stderr: &Vec<u8>,
    max_chars: usize,
) -> (r: RulesetStatus)
    ensures
        is_ruleset(
            r,
            ok,
            rules_or_reason(ok, lossy_text(stdout@), lossy_text(stderr@)),
            max_chars as nat,
        ),
{
    let out = utf8_lossy(stdout);
    let reason = utf8_lossy(stderr);
    ruleset_from_text(ok, out.as_str(), reason.as_str(), max_chars)
}

} // verus!
