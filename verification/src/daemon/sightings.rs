//! What is recognised on the host, and by what: processes, accounts, mounts, the tunnel.
use crate::accounts::{group_gid, user_entry};
use crate::bytes::number_at;
use crate::daemon::net::{
    first_with_prefix, is_miyori_net, last_block, last_field, link_show, net_pid, nul_to_space,
    rules_or_reason, tunnel_in, ProcEntry,
};
use crate::daemon::observe::vm_rss;
use crate::daemon::qemu::is_machine_of;
use crate::guest::mounts_at;
use crate::text::{
    dec, has_prefix, lines, occurs, occurs_at, parse_dec, pos_back, pos_from, split, trim, words,
};
use vstd::prelude::*;
use vstd::utf8::encode_utf8;

verus! {

// ---------------------------------------------------------------------------------------------
// Processes
// ---------------------------------------------------------------------------------------------

/// A process is the machine of a space only if its command line is that of a machine and names the
/// context id of the space, and not one that goes on with another digit.
pub proof fn a_machine_is_known_by_its_context_id(cmdline: Seq<u8>, cid: u32, at: int)
    ensures
        is_machine_of(cmdline, cid) ==> occurs(cmdline, encode_utf8("qemu-system-x86_64"@))
            && occurs(cmdline, encode_utf8("guest-cid="@ + dec(cid as nat))),
        ({
            let name = encode_utf8("guest-cid="@ + dec(cid as nat));
            let end = at + name.len();
            occurs(cmdline, encode_utf8("qemu-system-x86_64"@)) && occurs_at(cmdline, name, at) && (
            end == cmdline.len() || !('0' as u8 <= cmdline[end] <= '9' as u8)) ==> is_machine_of(
                cmdline,
                cid,
            )
        }),
{
    let name = encode_utf8("guest-cid="@ + dec(cid as nat));
    if is_machine_of(cmdline, cid) {
        let k = choose|k: int| number_at(cmdline, name, k);
        assert(occurs_at(cmdline, name, k));
    }
    let end = at + name.len();
    if occurs_at(cmdline, name, at) && (end == cmdline.len() || !('0' as u8 <= cmdline[end]
        <= '9' as u8)) {
        assert(number_at(cmdline, name, at));
    }
}

/// The network machine is a machine with an uplink among its parameters, and its process is known
/// by the number that names its directory.
pub proof fn the_network_machine_is_known_by_its_uplink(entry: ProcEntry, pid: nat)
    ensures
        is_miyori_net(entry.cmdline@) <==> occurs(
            entry.cmdline@,
            encode_utf8("qemu-system-x86_64"@),
        ) && occurs(entry.cmdline@, encode_utf8("MIYORI_UPLINK="@)),
        net_pid(entry) == Some(pid) <==> is_miyori_net(entry.cmdline@) && parse_dec(
            entry.name@,
            0xffff_ffff,
        ) == Some(pid),
{
}

proof fn lemma_first_word(ws: Seq<Seq<char>>, prefix: Seq<char>, k: int)
    requires
        0 <= k < ws.len(),
        has_prefix(ws[k], prefix),
        forall|j: int| 0 <= j < k ==> !has_prefix(#[trigger] ws[j], prefix),
    ensures
        first_with_prefix(ws, prefix) == Some(ws[k].skip(prefix.len() as int)),
    decreases k,
{
    if k > 0 {
        assert(!has_prefix(ws[0], prefix));
        let rest = ws.skip(1);
        assert(rest[k - 1] == ws[k]);
        assert forall|j: int| 0 <= j < k - 1 implies !has_prefix(#[trigger] rest[j], prefix) by {
            assert(!has_prefix(ws[j + 1], prefix));
        }
        lemma_first_word(rest, prefix, k - 1);
    }
}

/// The uplink of the network machine is what follows its name in the first parameter that has it;
/// the arguments of a command line end in null characters, which part words as blanks do.
pub proof fn an_uplink_stands_behind_its_name(text: Seq<char>, k: int, uplink: Seq<char>)
    requires
        0 <= k < words(nul_to_space(text)).len(),
        words(nul_to_space(text))[k] == "MIYORI_UPLINK="@ + uplink,
        forall|j: int|
            0 <= j < k ==> !has_prefix(
                #[trigger] words(nul_to_space(text))[j],
                "MIYORI_UPLINK="@,
            ),
    ensures
        first_with_prefix(words(nul_to_space(text)), "MIYORI_UPLINK="@) == Some(uplink),
        nul_to_space(text).len() == text.len(),
        forall|i: int|
            0 <= i < text.len() ==> #[trigger] nul_to_space(text)[i] == (if text[i] == '\0' {
                ' '
            } else {
                text[i]
            }),
{
    let ws = words(nul_to_space(text));
    let prefix = "MIYORI_UPLINK="@;
    assert(ws[k].subrange(0, prefix.len() as int) =~= prefix);
    lemma_first_word(ws, prefix, k);
    assert(ws[k].skip(prefix.len() as int) =~= uplink);
}

/// The resident memory of a process is the number in the first line that begins with its name.
pub proof fn the_memory_stands_behind_its_name(rows: Seq<Seq<char>>, k: int, kib: nat)
    requires
        0 <= k < rows.len(),
        has_prefix(rows[k], "VmRSS:"@),
        forall|j: int| 0 <= j < k ==> !has_prefix(#[trigger] rows[j], "VmRSS:"@),
    ensures
        ({
            let fields = words(rows[k].skip("VmRSS:"@.len() as int));
            &&& fields.len() > 0 && parse_dec(fields[0], 0xffff_ffff_ffff_ffff) == Some(kib)
                ==> vm_rss(rows) == Some(kib)
            &&& fields.len() == 0 ==> vm_rss(rows) is None
        }),
    decreases rows.len(),
{
    if k > 0 {
        assert(!has_prefix(rows[0], "VmRSS:"@));
        let rest = rows.skip(1);
        assert(rest[k - 1] == rows[k]);
        assert forall|j: int| 0 <= j < k - 1 implies !has_prefix(
            #[trigger] rest[j],
            "VmRSS:"@,
        ) by {
            assert(!has_prefix(rows[j + 1], "VmRSS:"@));
        }
        the_memory_stands_behind_its_name(rest, k - 1, kib);
    }
}

// ---------------------------------------------------------------------------------------------
// Accounts and mounts
// ---------------------------------------------------------------------------------------------

/// The number of a group stands in the third field of the first line that has its name in the
/// first one; where no line has it, there is none.
pub proof fn a_group_is_known_by_its_name(
    path: Seq<char>,
    name: Seq<char>,
    rows: Seq<Seq<char>>,
    k: int,
    gid: nat,
)
    ensures
        0 <= k < rows.len() && split(rows[k], ':')[0] == name && (forall|j: int|
            0 <= j < k ==> split(#[trigger] rows[j], ':')[0] != name) && split(rows[k], ':').len()
            > 2 && parse_dec(split(rows[k], ':')[2], 0xffff_ffff) == Some(gid) ==> group_gid(
            path,
            name,
            rows,
        ) == Ok::<nat, Seq<char>>(gid),
        (forall|j: int| 0 <= j < rows.len() ==> split(#[trigger] rows[j], ':')[0] != name)
            ==> group_gid(path, name, rows) is Err,
    decreases rows.len(),
{
    if rows.len() > 0 && split(rows[0], ':')[0] != name {
        let rest = rows.skip(1);
        if 0 < k < rows.len() {
            assert(rest[k - 1] == rows[k]);
        }
        assert forall|j: int|
            0 <= j < rest.len() && split(rows[j + 1], ':')[0] != name implies split(
            #[trigger] rest[j],
            ':',
        )[0] != name by {
            assert(rest[j] == rows[j + 1]);
        }
        a_group_is_known_by_its_name(path, name, rest, k - 1, gid);
        if forall|j: int| 0 <= j < rows.len() ==> split(#[trigger] rows[j], ':')[0] != name {
            assert forall|j: int| 0 <= j < rest.len() implies split(#[trigger] rest[j], ':')[0]
                != name by {
                assert(split(rows[j + 1], ':')[0] != name);
            }
        }
        if 0 < k < rows.len() && (forall|j: int|
            0 <= j < k ==> split(#[trigger] rows[j], ':')[0] != name) {
            assert forall|j: int| 0 <= j < k - 1 implies split(#[trigger] rest[j], ':')[0]
                != name by {
                assert(split(rows[j + 1], ':')[0] != name);
            }
        }
    }
}

/// What is known of an account stands in one line of the accounts: its number in the third field,
/// its group in the fourth, its home in the sixth.
pub proof fn an_account_is_known_by_its_number(
    path: Seq<char>,
    uid: u32,
    rows: Seq<Seq<char>>,
)
    requires
        user_entry(path, uid, rows) is Ok,
    ensures
        exists|k: int|
            {
                let fields = split(#[trigger] rows[k], ':');
                &&& 0 <= k < rows.len()
                &&& fields.len() > 5
                &&& fields[2] == dec(uid as nat)
                &&& parse_dec(fields[3], 0xffff_ffff) == Some(user_entry(path, uid, rows)->Ok_0.0)
                &&& fields[5] == user_entry(path, uid, rows)->Ok_0.1
            },
    decreases rows.len(),
{
    if split(rows[0], ':').len() > 2 && split(rows[0], ':')[2] == dec(uid as nat) {
        assert(rows[0] == rows[0]);
    } else {
        let rest = rows.skip(1);
        an_account_is_known_by_its_number(path, uid, rest);
        let k = choose|k: int|
            {
                let fields = split(#[trigger] rest[k], ':');
                &&& 0 <= k < rest.len()
                &&& fields.len() > 5
                &&& fields[2] == dec(uid as nat)
                &&& parse_dec(fields[3], 0xffff_ffff) == Some(user_entry(path, uid, rest)->Ok_0.0)
                &&& fields[5] == user_entry(path, uid, rest)->Ok_0.1
            };
        assert(rows[k + 1] == rest[k]);
    }
}

/// Something is mounted at a place if a line of the table of mounts has it as its second word,
/// whatever is mounted there.
pub proof fn a_mount_is_known_by_its_place(line: Seq<char>, target: Seq<char>)
    ensures
        mounts_at(line, target) <==> words(line).len() >= 2 && words(line)[1] == target,
{
}

// ---------------------------------------------------------------------------------------------
// The network
// ---------------------------------------------------------------------------------------------

/// A link is asked for by its name.
pub proof fn a_link_is_asked_for_by_name(name: Seq<char>)
    ensures
        link_show(name) == seq!["ip"@, "link"@, "show"@, name],
{
}

/// What is shown in the place of the rules is the rules, the reason for which they cannot be had,
/// or that no reason was given: never nothing.
pub proof fn rules_are_never_silently_missing(ok: bool, out: Seq<char>, reason: Seq<char>)
    ensures
        ok ==> rules_or_reason(ok, out, reason) == out,
        !ok && trim(reason).len() > 0 ==> rules_or_reason(ok, out, reason) == reason,
        !ok && trim(reason).len() == 0 ==> rules_or_reason(ok, out, reason)
            == "nft не отдал причину отказа"@,
        !ok ==> rules_or_reason(ok, out, reason).len() > 0,
{
    reveal_strlit("nft не отдал причину отказа");
    if reason.len() == 0 {
        assert(trim(reason).len() == 0);
    }
}

proof fn lemma_pos_back(s: Seq<char>, part: Seq<char>, from: int, at: int)
    requires
        0 <= at <= from,
        occurs_at(s, part, at),
        forall|i: int| at < i <= from ==> !occurs_at(s, part, i),
    ensures
        pos_back(s, part, from) == Some(at),
    decreases from - at,
{
    if at < from {
        lemma_pos_back(s, part, from - 1, at);
    }
}

proof fn lemma_pos_from(s: Seq<char>, part: Seq<char>, from: int, at: int)
    requires
        0 <= from <= at,
        occurs_at(s, part, at),
        forall|i: int| from <= i < at ==> !occurs_at(s, part, i),
    ensures
        pos_from(s, part, from) == Some(at),
    decreases at - from,
{
    if from < at {
        lemma_pos_from(s, part, from + 1, at);
    }
}

/// The console has seen every start of the network machine, and what its last block says counts:
/// what stands between the last opening mark and the closing mark that follows it.
pub proof fn the_last_block_counts(text: Seq<char>, start: int, stop: int)
    requires
        ({
            let open = "---MIYORI-TUNNEL-BEGIN---"@;
            let close = "---MIYORI-TUNNEL-END---"@;
            let body = text.skip(start + open.len());
            &&& occurs_at(text, open, start)
            &&& forall|i: int| start < i ==> !#[trigger] occurs_at(text, open, i)
            &&& occurs_at(body, close, stop)
            &&& forall|i: int| i < stop ==> !#[trigger] occurs_at(body, close, i)
        }),
    ensures
        last_block(text) == Some(
            text.subrange(
                (start + "---MIYORI-TUNNEL-BEGIN---"@.len()) as int,
                (start + "---MIYORI-TUNNEL-BEGIN---"@.len() + stop) as int,
            ),
        ),
{
    let open = "---MIYORI-TUNNEL-BEGIN---"@;
    let close = "---MIYORI-TUNNEL-END---"@;
    let from = (start + open.len()) as int;
    let body = text.skip(from);
    lemma_pos_back(text, open, text.len() - open.len(), start);
    lemma_pos_from(body, close, 0, stop);
    assert(body.take(stop) =~= text.subrange(from, from + stop));
}

proof fn lemma_last_field(rows: Seq<Seq<char>>, prefix: Seq<char>, k: int)
    requires
        0 <= k < rows.len(),
        has_prefix(trim(rows[k]), prefix),
        forall|j: int| k < j < rows.len() ==> !has_prefix(trim(#[trigger] rows[j]), prefix),
    ensures
        last_field(rows, prefix) == Some(trim(trim(rows[k]).skip(prefix.len() as int))),
    decreases rows.len(),
{
    if k < rows.len() - 1 {
        assert(!has_prefix(trim(rows[rows.len() - 1]), prefix));
        let front = rows.drop_last();
        assert(front[k] == rows[k]);
        assert forall|j: int| k < j < front.len() implies !has_prefix(
            trim(#[trigger] front[j]),
            prefix,
        ) by {
            assert(!has_prefix(trim(rows[j]), prefix));
        }
        lemma_last_field(front, prefix, k);
    }
}

/// The last line of a block that begins with a name is the one at `k`.
pub open spec fn is_last_named(rows: Seq<Seq<char>>, name: Seq<char>, k: int) -> bool {
    &&& 0 <= k < rows.len()
    &&& has_prefix(trim(rows[k]), name)
    &&& forall|j: int| k < j < rows.len() ==> !has_prefix(trim(#[trigger] rows[j]), name)
}

/// A block says of the tunnel what the last line of each of its three names says behind it.
pub proof fn a_block_names_its_three_fields(text: Seq<char>, a: int, b: int, c: int)
    requires
        last_block(text) is Some,
        is_last_named(lines(last_block(text)->0), "TUNNEL-IFC:"@, a),
        is_last_named(lines(last_block(text)->0), "TUNNEL-SET:"@, b),
        is_last_named(lines(last_block(text)->0), "TUNNEL-ROUTE:"@, c),
    ensures
        ({
            let rows = lines(last_block(text)->0);
            &&& tunnel_in(text) matches Some(t)
            &&& t.ifc == trim(trim(rows[a]).skip("TUNNEL-IFC:"@.len() as int))
            &&& t.set == trim(trim(rows[b]).skip("TUNNEL-SET:"@.len() as int))
            &&& t.route == trim(trim(rows[c]).skip("TUNNEL-ROUTE:"@.len() as int))
        }),
{
    let rows = lines(last_block(text)->0);
    lemma_last_field(rows, "TUNNEL-IFC:"@, a);
    lemma_last_field(rows, "TUNNEL-SET:"@, b);
    lemma_last_field(rows, "TUNNEL-ROUTE:"@, c);
}

} // verus!
