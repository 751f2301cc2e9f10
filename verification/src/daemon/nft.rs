//! What holds of the rules of the bridge as a whole.
use crate::daemon::render::{
    arp_line, by_cid, first_oversized, head_lines, ip_line, lemma_space_rows_among,
    lemma_space_rows_keep, nft_lines,
    nft_text, ordered_spaces, rule_lines, space_rows, tail_lines, RegistryRow, MAX_CID,
    MIYORI_NET_ID,
};
use crate::names::{ipv4_of, mac_of, tap_name};
use crate::order::{
    is_sorted, is_strict, lemma_sort_by_any_order, lemma_sort_by_contains, lemma_sort_by_multiset,
    lemma_sort_by_sorted,
};
use crate::text::{
    dec, hex, hex2, is_digit, is_one_line, lemma_dec_injective, lemma_dec_is_decimal,
    lemma_lines_of_terminated, lines, occurs, occurs_at,
};
use vstd::prelude::*;

verus! {

/// What a line says that speaks of the tap of a space.
pub open spec fn tap_words(cid: u32) -> Seq<char> {
    "iifname \""@ + tap_name(cid) + "\""@
}

pub open spec fn names_tap(line: Seq<char>, cid: u32) -> bool {
    occurs(line, tap_words(cid))
}

/// A single line with nothing in quotes that starts as the tap of a space does.
spec fn is_plain(line: Seq<char>) -> bool {
    &&& is_one_line(line)
    &&& forall|j: int|
        0 <= j && j + 10 < line.len() && #[trigger] line[j] == '"' ==> line[j + 1] != 't' || line[j
            + 10] != '-'
}

proof fn lemma_plain_names_no_tap(line: Seq<char>, cid: u32)
    requires
        is_plain(line),
    ensures
        !names_tap(line, cid),
{
    reveal_strlit("iifname \"");
    reveal_strlit("tap-space-");
    let words = tap_words(cid);
    lemma_dec_is_decimal(cid as nat);
    if names_tap(line, cid) {
        let i = choose|i: int| occurs_at(line, words, i);
        let part = line.subrange(i, i + words.len());
        assert(words[8] == '"' && words[9] == 't' && words[18] == '-');
        assert(part[8] == line[i + 8]);
        assert(part[9] == line[i + 9]);
        assert(part[18] == line[i + 18]);
    }
}

proof fn lemma_head_is_plain()
    ensures
        forall|k: int| 0 <= k < 15 ==> is_plain(#[trigger] head_lines()[k]),
{
    reveal_strlit("#!/usr/sbin/nft -f");
    reveal_strlit("# анти-спуфинг вместо DHCP-lease в miyori-net: демон lease — лишний TCB в роутере,");
    reveal_strlit("# а лгущего гостя он всё равно не остановит — останавливает только эта фильтрация");
    reveal_strlit("add table bridge miyori");
    reveal_strlit("flush table bridge miyori");
    reveal_strlit("");
    reveal_strlit("table bridge miyori {");
    reveal_strlit("\tchain spaces {");
    reveal_strlit("\t\ttype filter hook forward priority filter; policy accept;");
    reveal_strlit("\t\t# не трогаем чужие мосты хоста: docker, libvirt, br-captive");
    reveal_strlit("\t\tmeta ibrname != \"br-spaces\" accept");
    reveal_strlit("\t\tiifname \"tap-spaces\" accept");
    assert(is_plain("#!/usr/sbin/nft -f"@));
    assert(is_plain("# анти-спуфинг вместо DHCP-lease в miyori-net: демон lease — лишний TCB в роутере,"@));
    assert(is_plain("# а лгущего гостя он всё равно не остановит — останавливает только эта фильтрация"@));
    assert(is_plain("add table bridge miyori"@));
    assert(is_plain("flush table bridge miyori"@));
    assert(is_plain(""@));
    assert(is_plain("table bridge miyori {"@));
    assert(is_plain("\tchain spaces {"@));
    assert(is_plain("\t\ttype filter hook forward priority filter; policy accept;"@));
    assert(is_plain("\t\t# не трогаем чужие мосты хоста: docker, libvirt, br-captive"@));
    assert(is_plain("\t\tmeta ibrname != \"br-spaces\" accept"@));
    assert(is_plain("\t\tiifname \"tap-spaces\" accept"@));
}

proof fn lemma_tail_is_plain()
    ensures
        forall|k: int| 0 <= k < 14 ==> is_plain(#[trigger] tail_lines()[k]),
{
    reveal_strlit("");
    reveal_strlit("\t\t# спуф MAC/IP/ARP и весь IPv6 с портов спейсов падают сюда");
    reveal_strlit("\t\tdrop");
    reveal_strlit("\t}");
    reveal_strlit("\t# находка теста 52: хост отвечал спейсу по link-local IPv6. Кадры, адресованные");
    reveal_strlit("\t# самому мосту, идут через input и под цепочку forward не попадают вовсе.");
    reveal_strlit("\t# Хост не участник этого моста — ему отсюда не адресуют ничего");
    reveal_strlit("\tchain to-host {");
    reveal_strlit("\t\ttype filter hook input priority filter; policy accept;");
    reveal_strlit("\t\tmeta ibrname != \"br-spaces\" accept");
    reveal_strlit("\t\tcounter drop");
    reveal_strlit("}");
    assert(is_plain(""@));
    assert(is_plain("\t\t# спуф MAC/IP/ARP и весь IPv6 с портов спейсов падают сюда"@));
    assert(is_plain("\t\tdrop"@));
    assert(is_plain("\t}"@));
    assert(is_plain("\t# находка теста 52: хост отвечал спейсу по link-local IPv6. Кадры, адресованные"@));
    assert(is_plain("\t# самому мосту, идут через input и под цепочку forward не попадают вовсе."@));
    assert(is_plain("\t# Хост не участник этого моста — ему отсюда не адресуют ничего"@));
    assert(is_plain("\tchain to-host {"@));
    assert(is_plain("\t\ttype filter hook input priority filter; policy accept;"@));
    assert(is_plain("\t\tmeta ibrname != \"br-spaces\" accept"@));
    assert(is_plain("\t\tcounter drop"@));
    assert(is_plain("}"@));
}

/// The two lines of a space, which differ in `what`.
spec fn rule_line(cid: u32, what: Seq<char>) -> Seq<char> {
    "\t\tiifname \""@ + tap_name(cid) + "\" ether saddr "@ + mac_of(cid) + what + ipv4_of(cid)
        + " accept"@
}

spec fn is_quiet(c: char) -> bool {
    c != '"' && c != '\n' && c != '\r'
}

proof fn lemma_hex_is_quiet(n: nat)
    ensures
        forall|j: int| 0 <= j < hex(n).len() ==> is_quiet(#[trigger] hex(n)[j]),
    decreases n,
{
    if n >= 16 {
        lemma_hex_is_quiet(n / 16);
        let front = hex(n / 16);
        assert forall|j: int| 0 <= j < hex(n).len() implies is_quiet(#[trigger] hex(n)[j]) by {
            if j < front.len() {
                assert(hex(n)[j] == front[j]);
            }
        }
    }
}

/// A line of a space has two quotes: before its tap and behind it.
proof fn lemma_rule_line(cid: u32, what: Seq<char>)
    requires
        forall|j: int| 0 <= j < what.len() ==> is_quiet(#[trigger] what[j]),
    ensures
        ({
            let line = rule_line(cid, what);
            let n = dec(cid as nat).len() as int;
            &&& line.len() > 22 + n
            &&& line[21 + n] == '"'
            &&& line[22 + n] == ' '
            &&& forall|j: int| 0 <= j < n ==> line[21 + j] == #[trigger] dec(cid as nat)[j]
            &&& forall|j: int|
                0 <= j < line.len() && #[trigger] line[j] == '"' ==> j == 10 || j == 21 + n
            &&& is_one_line(line)
            &&& names_tap(line, cid)
        }),
{
    reveal_strlit("\t\tiifname \"");
    reveal_strlit("iifname \"");
    reveal_strlit("\"");
    reveal_strlit("tap-space-");
    reveal_strlit("\" ether saddr ");
    reveal_strlit("52:54:00:6d:59:");
    reveal_strlit("10.59.0.");
    reveal_strlit(" accept");
    let number = dec(cid as nat);
    let n = number.len() as int;
    lemma_dec_is_decimal(cid as nat);
    lemma_hex_is_quiet(cid as nat);
    let line = rule_line(cid, what);
    let a = "\t\tiifname \""@ + "tap-space-"@;
    let b = "\" ether saddr "@;
    let mac = mac_of(cid);
    let end = ipv4_of(cid) + " accept"@;
    assert(line =~= a + number + b + mac + what + end);
    assert forall|j: int| 0 <= j < a.len() && j != 10 implies is_quiet(#[trigger] a[j]) by {}
    assert forall|j: int| 1 <= j < b.len() implies is_quiet(#[trigger] b[j]) by {}
    assert forall|j: int| 0 <= j < number.len() implies is_quiet(#[trigger] number[j]) by {
        assert(is_digit(number[j]));
    }
    assert forall|j: int| 0 <= j < mac.len() implies is_quiet(#[trigger] mac[j]) by {
        if j >= 15 {
            assert(mac[j] == hex2(cid as nat)[j - 15]);
        }
    }
    assert forall|j: int| 0 <= j < end.len() implies is_quiet(#[trigger] end[j]) by {
        if 8 <= j < 8 + n {
            assert(end[j] == number[j - 8]);
        }
    }
    assert forall|j: int| 0 <= j < line.len() && j != 10 && j != 21 + n implies is_quiet(
        #[trigger] line[j],
    ) by {
        if j < 21 {
            assert(line[j] == a[j]);
        } else if j < 21 + n {
            assert(line[j] == number[j - 21]);
        } else if j < 21 + n + b.len() {
            assert(line[j] == b[j - 21 - n]);
        } else if j < 21 + n + b.len() + mac.len() {
            assert(line[j] == mac[j - 21 - n - b.len()]);
        } else if j < 21 + n + b.len() + mac.len() + what.len() {
            assert(line[j] == what[j - 21 - n - b.len() - mac.len()]);
        } else {
            assert(line[j] == end[j - 21 - n - b.len() - mac.len() - what.len()]);
        }
    }
    assert(line[10] == a[10]);
    assert(line[21 + n] == b[0]);
    assert(line[22 + n] == b[1]);
    assert forall|j: int| 0 <= j < n implies line[21 + j] == #[trigger] number[j] by {}
    let words = tap_words(cid);
    assert(line.subrange(2, 2 + words.len() as int) =~= words);
    assert(occurs_at(line, words, 2));
}

/// The lines of a space speak of no other tap.
proof fn lemma_rule_line_of_another(cid: u32, other: u32, what: Seq<char>)
    requires
        cid != other,
        forall|j: int| 0 <= j < what.len() ==> is_quiet(#[trigger] what[j]),
    ensures
        !names_tap(rule_line(other, what), cid),
{
    lemma_rule_line(other, what);
    let line = rule_line(other, what);
    let words = tap_words(cid);
    let mine = dec(cid as nat);
    let theirs = dec(other as nat);
    lemma_dec_is_decimal(cid as nat);
    lemma_dec_is_decimal(other as nat);
    reveal_strlit("iifname \"");
    reveal_strlit("\"");
    reveal_strlit("tap-space-");
    if names_tap(line, cid) {
        let i = choose|i: int| occurs_at(line, words, i);
        let part = line.subrange(i, i + words.len());
        assert(words[8] == '"' && words[9] == 't');
        assert(part[8] == line[i + 8]);
        assert(part[9] == line[i + 9]);
        assert(i == 2);
        assert forall|k: int| 0 <= k < mine.len() implies line[21 + k] == #[trigger] mine[k] by {
            assert(words[19 + k] == mine[k]);
            assert(part[19 + k] == line[21 + k]);
        }
        assert(words[19 + mine.len() as int] == '"');
        assert(part[19 + mine.len() as int] == line[21 + mine.len() as int]);
        if mine.len() < theirs.len() {
            assert(is_digit(theirs[mine.len() as int]));
            assert(line[21 + mine.len() as int] == theirs[mine.len() as int]);
        } else if mine.len() > theirs.len() {
            assert(is_digit(mine[theirs.len() as int]));
            assert(line[21 + theirs.len() as int] == mine[theirs.len() as int]);
        } else {
            assert forall|k: int| 0 <= k < mine.len() implies mine[k] == theirs[k] by {
                assert(line[21 + k] == mine[k]);
                assert(line[21 + k] == theirs[k]);
            }
            assert(mine =~= theirs);
            lemma_dec_injective(cid as nat, other as nat);
        }
    }
}

proof fn lemma_lines_of_a_space(cid: u32)
    ensures
        is_one_line(ip_line(cid)),
        is_one_line(arp_line(cid)),
        names_tap(ip_line(cid), cid),
        names_tap(arp_line(cid), cid),
        forall|c: u32| c != cid ==> !#[trigger] names_tap(ip_line(cid), c),
        forall|c: u32| c != cid ==> !#[trigger] names_tap(arp_line(cid), c),
{
    let packets = " ip saddr "@;
    let resolution = " arp saddr ip "@;
    assert forall|j: int| 0 <= j < packets.len() implies is_quiet(#[trigger] packets[j]) by {
        reveal_strlit(" ip saddr ");
    }
    assert forall|j: int| 0 <= j < resolution.len() implies is_quiet(#[trigger] resolution[j]) by {
        reveal_strlit(" arp saddr ip ");
    }
    assert(ip_line(cid) == rule_line(cid, packets));
    assert(arp_line(cid) == rule_line(cid, resolution));
    lemma_rule_line(cid, packets);
    lemma_rule_line(cid, resolution);
    assert forall|c: u32| c != cid implies !#[trigger] names_tap(ip_line(cid), c) by {
        lemma_rule_line_of_another(c, cid, packets);
    }
    assert forall|c: u32| c != cid implies !#[trigger] names_tap(arp_line(cid), c) by {
        lemma_rule_line_of_another(c, cid, resolution);
    }
}

proof fn lemma_rule_lines(rows: Seq<RegistryRow>)
    ensures
        rule_lines(rows).len() == 2 * rows.len(),
        forall|k: int|
            0 <= k < rows.len() ==> rule_lines(rows)[2 * k] == ip_line((#[trigger] rows[k]).cid)
                && rule_lines(rows)[2 * k + 1] == arp_line(rows[k].cid),
    decreases rows.len(),
{
    if rows.len() > 0 {
        let front = rows.drop_last();
        lemma_rule_lines(front);
        assert forall|k: int| 0 <= k < rows.len() implies rule_lines(rows)[2 * k] == ip_line(
            (#[trigger] rows[k]).cid,
        ) && rule_lines(rows)[2 * k + 1] == arp_line(rows[k].cid) by {
            if k < front.len() {
                assert(front[k] == rows[k]);
                assert(rule_lines(rows)[2 * k] == rule_lines(front)[2 * k]);
                assert(rule_lines(rows)[2 * k + 1] == rule_lines(front)[2 * k + 1]);
            }
        }
    }
}

/// How many lines stand before those of the spaces.
pub open spec fn first_rule() -> int {
    head_lines().len() as int
}

/// The lines of the spaces stand in the order of their context ids, two for each, one behind the
/// other: the first for its packets, the second for its address resolution. What drops the rest
/// stands behind all of them.
pub proof fn the_rules_stand_in_order(rows: Seq<RegistryRow>)
    ensures
        ({
            let spaces = ordered_spaces(rows);
            let all = nft_lines(rows);
            &&& is_sorted(spaces, by_cid())
            &&& forall|k: int|
                0 <= k < spaces.len() ==> all[first_rule() + 2 * k] == ip_line(
                    (#[trigger] spaces[k]).cid,
                ) && all[first_rule() + 2 * k + 1] == arp_line(spaces[k].cid)
            &&& all[first_rule() + 2 * spaces.len() + 2] == "\t\tdrop"@
            &&& all.len() == first_rule() + 2 * spaces.len() + tail_lines().len()
        }),
{
    let spaces = ordered_spaces(rows);
    let all = nft_lines(rows);
    lemma_sort_by_sorted(space_rows(rows), by_cid());
    lemma_rule_lines(spaces);
    assert forall|k: int| 0 <= k < spaces.len() implies all[first_rule() + 2 * k] == ip_line(
        (#[trigger] spaces[k]).cid,
    ) && all[first_rule() + 2 * k + 1] == arp_line(spaces[k].cid) by {
        assert(all[first_rule() + 2 * k] == rule_lines(spaces)[2 * k]);
        assert(all[first_rule() + 2 * k + 1] == rule_lines(spaces)[2 * k + 1]);
    }
    assert(all[first_rule() + 2 * spaces.len() + 2] == tail_lines()[2]);
}

/// Where a line of the rules comes from.
proof fn lemma_line_at(rows: Seq<RegistryRow>, q: int)
    requires
        0 <= q < nft_lines(rows).len(),
    ensures
        ({
            let spaces = ordered_spaces(rows);
            let k = (q - first_rule()) / 2;
            let line = nft_lines(rows)[q];
            if first_rule() <= q < first_rule() + 2 * spaces.len() {
                &&& 0 <= k < spaces.len()
                &&& q == first_rule() + 2 * k || q == first_rule() + 2 * k + 1
                &&& line == ip_line(spaces[k].cid) || line == arp_line(spaces[k].cid)
            } else {
                is_plain(line)
            }
        }),
{
    let spaces = ordered_spaces(rows);
    lemma_rule_lines(spaces);
    lemma_head_is_plain();
    lemma_tail_is_plain();
    the_rules_stand_in_order(rows);
    if q < first_rule() {
        assert(nft_lines(rows)[q] == head_lines()[q]);
    } else if q >= first_rule() + 2 * spaces.len() {
        assert(nft_lines(rows)[q] == tail_lines()[q - first_rule() - 2 * spaces.len()]);
    } else {
        let k = (q - first_rule()) / 2;
        assert(spaces[k] == spaces[k]);
    }
}

/// The text of the rules is read as the lines of which it was made.
pub proof fn the_rules_read_as_their_lines(rows: Seq<RegistryRow>)
    ensures
        lines(nft_text(rows)) == nft_lines(rows),
{
    let all = nft_lines(rows);
    assert forall|q: int| 0 <= q < all.len() implies is_one_line(#[trigger] all[q]) by {
        lemma_line_at(rows, q);
        let k = (q - first_rule()) / 2;
        if 0 <= k < ordered_spaces(rows).len() {
            lemma_lines_of_a_space(ordered_spaces(rows)[k].cid);
        }
    }
    lemma_lines_of_terminated(all);
}

/// No two spaces have one context id. The network machine does not count.
pub open spec fn cids_apart(rows: Seq<RegistryRow>) -> bool {
    let spaces = space_rows(rows);
    forall|i: int, j: int|
        0 <= i < j < spaces.len() ==> #[trigger] spaces[i].cid != #[trigger] spaces[j].cid
}

proof fn lemma_ordered_apart(rows: Seq<RegistryRow>)
    requires
        cids_apart(rows),
    ensures
        forall|i: int, j: int|
            0 <= i < j < ordered_spaces(rows).len() ==> #[trigger] ordered_spaces(rows)[i].cid
                != #[trigger] ordered_spaces(rows)[j].cid,
        is_strict(ordered_spaces(rows), by_cid()),
{
    let plain = space_rows(rows);
    let spaces = ordered_spaces(rows);
    lemma_sort_by_multiset(plain, by_cid());
    assert(plain.no_duplicates()) by {
        assert forall|i: int, j: int|
            0 <= i < plain.len() && 0 <= j < plain.len() && i != j implies plain[i]
            != plain[j] by {
            if i < j {
                assert(plain[i].cid != plain[j].cid);
            } else {
                assert(plain[j].cid != plain[i].cid);
            }
        }
    }
    plain.lemma_multiset_has_no_duplicates();
    spaces.lemma_multiset_has_no_duplicates_conv();
    assert forall|i: int, j: int| 0 <= i < j < spaces.len() implies #[trigger] spaces[i].cid
        != #[trigger] spaces[j].cid by {
        assert(spaces.contains(spaces[i]) && spaces.contains(spaces[j]));
        lemma_sort_by_contains(plain, by_cid(), spaces[i]);
        lemma_sort_by_contains(plain, by_cid(), spaces[j]);
        let a = choose|a: int| 0 <= a < plain.len() && plain[a] == spaces[i];
        let b = choose|b: int| 0 <= b < plain.len() && plain[b] == spaces[j];
        assert(spaces[i] != spaces[j]);
        if a < b {
            assert(plain[a].cid != plain[b].cid);
        } else {
            assert(plain[b].cid != plain[a].cid);
        }
    }
    assert forall|i: int, j: int| 0 <= i < j < spaces.len() implies !(#[trigger] by_cid()(
        spaces[i],
        spaces[j],
    ) && by_cid()(spaces[j], spaces[i])) by {
        assert(spaces[i].cid != spaces[j].cid);
    }
}

/// The tap of a space stands in two lines of the rules, its own, and in no other.
pub proof fn a_tap_stands_in_two_lines(rows: Seq<RegistryRow>, k: int, q: int)
    requires
        cids_apart(rows),
        0 <= k < ordered_spaces(rows).len(),
        0 <= q < nft_lines(rows).len(),
    ensures
        names_tap(nft_lines(rows)[q], ordered_spaces(rows)[k].cid) <==> q == first_rule() + 2 * k
            || q == first_rule() + 2 * k + 1,
{
    let spaces = ordered_spaces(rows);
    let cid = spaces[k].cid;
    let line = nft_lines(rows)[q];
    lemma_line_at(rows, q);
    lemma_ordered_apart(rows);
    lemma_rule_lines(spaces);
    if first_rule() <= q < first_rule() + 2 * spaces.len() {
        let p = (q - first_rule()) / 2;
        lemma_lines_of_a_space(spaces[p].cid);
        if p < k {
            assert(spaces[p].cid != spaces[k].cid);
        } else if k < p {
            assert(spaces[k].cid != spaces[p].cid);
        }
    } else {
        lemma_plain_names_no_tap(line, cid);
    }
}

/// Every space has its lines.
pub proof fn every_space_is_admitted(rows: Seq<RegistryRow>, i: int)
    requires
        0 <= i < rows.len(),
        rows[i].id != MIYORI_NET_ID@,
    ensures
        nft_lines(rows).contains(ip_line(rows[i].cid)),
        nft_lines(rows).contains(arp_line(rows[i].cid)),
        ordered_spaces(rows).contains(rows[i]),
{
    let plain = space_rows(rows);
    let spaces = ordered_spaces(rows);
    lemma_space_rows_keep(rows, i);
    assert(plain.contains(rows[i]));
    lemma_sort_by_contains(plain, by_cid(), rows[i]);
    let k = choose|k: int| 0 <= k < spaces.len() && spaces[k] == rows[i];
    the_rules_stand_in_order(rows);
    lemma_rule_lines(spaces);
    assert(nft_lines(rows)[first_rule() + 2 * k] == ip_line(spaces[k].cid));
    assert(nft_lines(rows)[first_rule() + 2 * k + 1] == arp_line(spaces[k].cid));
}

proof fn lemma_space_rows_count(rows: Seq<RegistryRow>, x: RegistryRow)
    ensures
        space_rows(rows).to_multiset().count(x) == (if x.id == MIYORI_NET_ID@ {
            0
        } else {
            rows.to_multiset().count(x)
        }),
    decreases rows.len(),
{
    rows.to_multiset_ensures();
    space_rows(rows).to_multiset_ensures();
    if rows.len() > 0 {
        let front = rows.drop_last();
        lemma_space_rows_count(front, x);
        front.to_multiset_ensures();
        space_rows(front).to_multiset_ensures();
        assert(front.push(rows.last()) =~= rows);
    }
}

proof fn lemma_first_oversized(rows: Seq<RegistryRow>)
    requires
        forall|i: int|
            0 <= i < rows.len() ==> (#[trigger] rows[i]).id == MIYORI_NET_ID@ || rows[i].cid
                <= MAX_CID,
    ensures
        first_oversized(rows) is None,
    decreases rows.len(),
{
    if rows.len() > 0 {
        let rest = rows.skip(1);
        assert forall|i: int| 0 <= i < rest.len() implies (#[trigger] rest[i]).id == MIYORI_NET_ID@
            || rest[i].cid <= MAX_CID by {
            assert(rest[i] == rows[i + 1]);
        }
        assert(rows[0].id == MIYORI_NET_ID@ || rows[0].cid <= MAX_CID);
        lemma_first_oversized(rest);
    }
}

/// The order in which the spaces are given makes no difference to the rules.
pub proof fn the_order_of_entries_does_not_matter(rows: Seq<RegistryRow>, other: Seq<RegistryRow>)
    requires
        cids_apart(rows),
        rows.to_multiset() == other.to_multiset(),
        forall|i: int|
            0 <= i < rows.len() ==> (#[trigger] rows[i]).id == MIYORI_NET_ID@ || rows[i].cid
                <= MAX_CID,
    ensures
        first_oversized(rows) is None,
        first_oversized(other) is None,
        nft_text(other) == nft_text(rows),
{
    lemma_first_oversized(rows);
    assert forall|i: int| 0 <= i < other.len() implies (#[trigger] other[i]).id == MIYORI_NET_ID@
        || other[i].cid <= MAX_CID by {
        rows.to_multiset_ensures();
        other.to_multiset_ensures();
        assert(other.contains(other[i]));
        assert(other.to_multiset().count(other[i]) > 0);
        assert(rows.contains(other[i]) <==> rows.to_multiset().count(other[i]) > 0);
        let j = choose|j: int| 0 <= j < rows.len() && rows[j] == other[i];
        assert(rows[j].id == MIYORI_NET_ID@ || rows[j].cid <= MAX_CID);
    }
    lemma_first_oversized(other);
    lemma_ordered_apart(rows);
    assert(space_rows(rows).to_multiset() =~= space_rows(other).to_multiset()) by {
        assert forall|x: RegistryRow|
            space_rows(rows).to_multiset().count(x) == space_rows(other).to_multiset().count(x) by {
            lemma_space_rows_count(rows, x);
            lemma_space_rows_count(other, x);
        }
    }
    lemma_sort_by_any_order(space_rows(rows), space_rows(other), by_cid());
}

// ---------------------------------------------------------------------------------------------
// What the rules mean
// ---------------------------------------------------------------------------------------------

/// A frame on a bridge of the host: the bridge, the port on which it came in, and what it says of
/// its sender.
pub struct Frame {
    pub bridge: Seq<char>,
    pub port: Seq<char>,
    pub mac: Seq<char>,
    pub ip: Option<Seq<char>>,
    pub arp_ip: Option<Seq<char>>,
}

/// Which frames a rule is about.
pub enum About {
    OtherBridges(Seq<char>),
    Port(Seq<char>),
    Packets { port: Seq<char>, mac: Seq<char>, ip: Seq<char> },
    Resolution { port: Seq<char>, mac: Seq<char>, ip: Seq<char> },
    All,
}

pub struct Rule {
    pub about: About,
    pub accepts: bool,
    pub counts: bool,
}

pub open spec fn concerns(about: About, f: Frame) -> bool {
    match about {
        About::OtherBridges(bridge) => f.bridge != bridge,
        About::Port(port) => f.port == port,
        About::Packets { port, mac, ip } => f.port == port && f.mac == mac && f.ip == Some(ip),
        About::Resolution { port, mac, ip } => f.port == port && f.mac == mac && f.arp_ip == Some(
            ip,
        ),
        About::All => true,
    }
}

/// What becomes of a frame: the first rule that is about it decides, and where there is none it
/// passes.
pub open spec fn passes(rules: Seq<Rule>, f: Frame) -> bool
    decreases rules.len(),
{
    if rules.len() == 0 {
        true
    } else if concerns(rules[0].about, f) {
        rules[0].accepts
    } else {
        passes(rules.skip(1), f)
    }
}

/// A rule as it is written in a chain.
pub open spec fn rule_text(rule: Rule) -> Seq<char> {
    "\t\t"@ + (match rule.about {
        About::OtherBridges(bridge) => "meta ibrname != \""@ + bridge + "\" "@,
        About::Port(port) => "iifname \""@ + port + "\" "@,
        About::Packets { port, mac, ip } => "iifname \""@ + port + "\" ether saddr "@ + mac
            + " ip saddr "@ + ip + " "@,
        About::Resolution { port, mac, ip } => "iifname \""@ + port + "\" ether saddr "@ + mac
            + " arp saddr ip "@ + ip + " "@,
        About::All => seq![],
    }) + (if rule.counts {
        "counter "@
    } else {
        seq![]
    }) + (if rule.accepts {
        "accept"@
    } else {
        "drop"@
    })
}

/// A blank line or a comment.
pub open spec fn is_silent(line: Seq<char>) -> bool {
    line.len() == 0 || line.len() > 2 && line[2] == '#'
}

/// The lines that say something.
pub open spec fn spoken(rows: Seq<Seq<char>>) -> Seq<Seq<char>>
    decreases rows.len(),
{
    if rows.len() == 0 {
        seq![]
    } else if is_silent(rows.last()) {
        spoken(rows.drop_last())
    } else {
        spoken(rows.drop_last()).push(rows.last())
    }
}

/// A chain of that name and kind stands among lines, from one line to another, and its rules are
/// these. What no rule is about passes.
pub open spec fn is_chain(
    rows: Seq<Seq<char>>,
    from: int,
    to: int,
    name: Seq<char>,
    hook: Seq<char>,
    rules: Seq<Rule>,
) -> bool {
    &&& 0 <= from && from + 2 <= to < rows.len()
    &&& rows[from] == "\tchain "@ + name + " {"@
    &&& rows[from + 1] == "\t\ttype filter hook "@ + hook
        + " priority filter; policy accept;"@
    &&& rows[to] == "\t}"@
    &&& spoken(rows.subrange(from + 2, to)) == rules.map_values(|r: Rule| rule_text(r))
}

/// The rules of the chain through which frames are forwarded.
spec fn space_rules(cids: Seq<RegistryRow>) -> Seq<Rule>
    decreases cids.len(),
{
    if cids.len() == 0 {
        seq![
            Rule {
                about: About::OtherBridges("br-spaces"@),
                accepts: true,
                counts: false,
            },
            Rule { about: About::Port("tap-spaces"@), accepts: true, counts: false },
        ]
    } else {
        let cid = cids.last().cid;
        let (port, mac, ip) = (tap_name(cid), mac_of(cid), ipv4_of(cid));
        space_rules(cids.drop_last()) + seq![
            Rule { about: About::Packets { port, mac, ip }, accepts: true, counts: false },
            Rule { about: About::Resolution { port, mac, ip }, accepts: true, counts: false },
        ]
    }
}

spec fn drop_rule() -> Rule {
    Rule { about: About::All, accepts: false, counts: false }
}

/// A frame is said to come from a space: it came in on the tap of the space, under its hardware
/// address and its address.
pub open spec fn comes_from(cid: u32, f: Frame) -> bool {
    f.port == tap_name(cid) && f.mac == mac_of(cid) && (f.ip == Some(ipv4_of(cid)) || f.arp_ip
        == Some(ipv4_of(cid)))
}

proof fn lemma_passes_add(a: Seq<Rule>, b: Seq<Rule>, f: Frame)
    requires
        forall|i: int| 0 <= i < a.len() ==> (#[trigger] a[i]).accepts,
    ensures
        passes(a + b, f) <==> (exists|i: int|
            0 <= i < a.len() && concerns((#[trigger] a[i]).about, f)) || passes(b, f),
    decreases a.len(),
{
    if a.len() == 0 {
        assert(a + b =~= b);
    } else {
        let rest = a.skip(1);
        assert((a + b).skip(1) =~= rest + b);
        assert((a + b)[0] == a[0]);
        assert forall|i: int| 0 <= i < rest.len() implies (#[trigger] rest[i]).accepts by {
            assert(rest[i] == a[i + 1]);
        }
        lemma_passes_add(rest, b, f);
        if exists|i: int| 0 <= i < a.len() && concerns((#[trigger] a[i]).about, f) {
            let i = choose|i: int| 0 <= i < a.len() && concerns((#[trigger] a[i]).about, f);
            if i > 0 {
                assert(rest[i - 1] == a[i]);
            }
        }
        if exists|i: int| 0 <= i < rest.len() && concerns((#[trigger] rest[i]).about, f) {
            let i = choose|i: int| 0 <= i < rest.len() && concerns((#[trigger] rest[i]).about, f);
            assert(a[i + 1] == rest[i]);
        }
    }
}

proof fn lemma_space_rules(cids: Seq<RegistryRow>, f: Frame)
    ensures
        forall|i: int| 0 <= i < space_rules(cids).len() ==> (#[trigger] space_rules(cids)[i]).accepts,
        (exists|i: int|
            0 <= i < space_rules(cids).len() && concerns(
                (#[trigger] space_rules(cids)[i]).about,
                f,
            )) <==> f.bridge != "br-spaces"@ || f.port == "tap-spaces"@ || exists|k: int|
            0 <= k < cids.len() && comes_from((#[trigger] cids[k]).cid, f),
    decreases cids.len(),
{
    let all = space_rules(cids);
    if cids.len() == 0 {
        assert(all[0].about == About::OtherBridges("br-spaces"@));
        assert(all[1].about == About::Port("tap-spaces"@));
    } else {
        let front = cids.drop_last();
        lemma_space_rules(front, f);
        let before = space_rules(front);
        let n = before.len() as int;
        let cid = cids.last().cid;
        assert(all.len() == n + 2);
        assert(all[n].about == About::Packets {
            port: tap_name(cid),
            mac: mac_of(cid),
            ip: ipv4_of(cid),
        });
        assert(all[n + 1].about == About::Resolution {
            port: tap_name(cid),
            mac: mac_of(cid),
            ip: ipv4_of(cid),
        });
        assert forall|i: int| 0 <= i < n implies all[i] == #[trigger] before[i] by {}
        assert(cids[cids.len() - 1].cid == cid);
        if exists|i: int| 0 <= i < all.len() && concerns((#[trigger] all[i]).about, f) {
            let i = choose|i: int| 0 <= i < all.len() && concerns((#[trigger] all[i]).about, f);
            if i < n {
                assert(concerns(before[i].about, f));
                if exists|k: int| 0 <= k < front.len() && comes_from((#[trigger] front[k]).cid, f) {
                    let k = choose|k: int|
                        0 <= k < front.len() && comes_from((#[trigger] front[k]).cid, f);
                    assert(cids[k] == front[k]);
                }
            } else {
                assert(comes_from(cids[cids.len() - 1].cid, f));
            }
        }
        if f.bridge != "br-spaces"@ || f.port == "tap-spaces"@ || exists|k: int|
            0 <= k < cids.len() && comes_from((#[trigger] cids[k]).cid, f) {
            if exists|k: int| 0 <= k < front.len() && comes_from((#[trigger] front[k]).cid, f)
                || f.bridge != "br-spaces"@ || f.port == "tap-spaces"@ {
                let i = choose|i: int|
                    0 <= i < before.len() && concerns((#[trigger] before[i]).about, f);
                assert(all[i] == before[i]);
            } else {
                let k = choose|k: int|
                    0 <= k < cids.len() && comes_from((#[trigger] cids[k]).cid, f);
                if k < front.len() {
                    assert(front[k] == cids[k]);
                }
                assert(concerns(all[n].about, f) || concerns(all[n + 1].about, f));
            }
        }
    }
}

proof fn lemma_spoken_add(a: Seq<Seq<char>>, b: Seq<Seq<char>>)
    ensures
        spoken(a + b) == spoken(a) + spoken(b),
    decreases b.len(),
{
    if b.len() == 0 {
        assert(a + b =~= a);
        assert(spoken(a) + spoken(b) =~= spoken(a));
    } else {
        assert((a + b).drop_last() =~= a + b.drop_last());
        lemma_spoken_add(a, b.drop_last());
        assert(spoken(a + b) =~= spoken(a) + spoken(b));
    }
}

proof fn lemma_spoken_one(line: Seq<char>)
    ensures
        spoken(seq![line]) == (if is_silent(line) {
            seq![]
        } else {
            seq![line]
        }),
{
    let s = seq![line];
    let none = Seq::<Seq<char>>::empty();
    assert(s.drop_last() =~= none);
    assert(spoken(none) =~= none);
    assert(s.last() == line);
    if !is_silent(line) {
        assert(spoken(s) =~= s);
    }
}

spec fn texts_of(rules: Seq<Rule>) -> Seq<Seq<char>> {
    rules.map_values(|r: Rule| rule_text(r))
}

/// The rules of the spaces are written as their lines.
proof fn lemma_rule_texts(cids: Seq<RegistryRow>)
    ensures
        texts_of(space_rules(cids)) == texts_of(space_rules(seq![])) + rule_lines(cids),
        spoken(rule_lines(cids)) == rule_lines(cids),
    decreases cids.len(),
{
    if cids.len() == 0 {
        assert(cids =~= seq![]);
        assert(texts_of(space_rules(cids)) =~= texts_of(space_rules(seq![])) + rule_lines(cids));
    } else {
        let front = cids.drop_last();
        let cid = cids.last().cid;
        lemma_rule_texts(front);
        reveal_strlit("\t\t");
        reveal_strlit("\t\tiifname \"");
        reveal_strlit("iifname \"");
        reveal_strlit(" accept");
        reveal_strlit(" ");
        reveal_strlit("accept");
        let all = space_rules(cids);
        let n = space_rules(front).len() as int;
        let a = ip_line(cid);
        let b = arp_line(cid);
        assert(rule_text(all[n]) =~= a);
        assert(rule_text(all[n + 1]) =~= b);
        assert(texts_of(all) =~= texts_of(space_rules(front)) + seq![a, b]);
        assert(texts_of(all) =~= texts_of(space_rules(seq![])) + rule_lines(cids));
        assert(a[2] == 'i' && b[2] == 'i');
        lemma_spoken_one(a);
        lemma_spoken_one(b);
        lemma_spoken_add(seq![a], seq![b]);
        assert(seq![a] + seq![b] =~= seq![a, b]);
        lemma_spoken_add(rule_lines(front), seq![a, b]);
        assert(spoken(rule_lines(cids)) =~= rule_lines(cids));
    }
}

/// What is said before the rules of the spaces, and behind them.
proof fn lemma_spoken_ends()
    ensures
        spoken(head_lines().subrange(9, 15)) == texts_of(space_rules(seq![])),
        spoken(tail_lines().subrange(0, 3)) == texts_of(seq![drop_rule()]),
{
    reveal_strlit("");
    reveal_strlit("\t\t# не трогаем чужие мосты хоста: docker, libvirt, br-captive");
    reveal_strlit("\t\tmeta ibrname != \"br-spaces\" accept");
    reveal_strlit("\t\tiifname \"tap-spaces\" accept");
    reveal_strlit("\t\t# спуф MAC/IP/ARP и весь IPv6 с портов спейсов падают сюда");
    reveal_strlit("\t\tdrop");
    reveal_strlit("\t\t");
    reveal_strlit("meta ibrname != \"");
    reveal_strlit("br-spaces");
    reveal_strlit("\" ");
    reveal_strlit("accept");
    reveal_strlit("drop");
    reveal_strlit("iifname \"");
    reveal_strlit("tap-spaces");
    let h = head_lines();
    let rules = space_rules(seq![]);
    assert(rule_text(rules[0]) =~= h[11]);
    assert(rule_text(rules[1]) =~= h[13]);
    assert(texts_of(rules) =~= seq![h[11], h[13]]);
    let none = Seq::<Seq<char>>::empty();
    let a = seq![h[9]] + seq![h[10]];
    let b = a + seq![h[11]];
    let c = b + seq![h[12]];
    let d = c + seq![h[13]];
    let e = d + seq![h[14]];
    lemma_spoken_one(h[9]);
    lemma_spoken_one(h[10]);
    lemma_spoken_one(h[11]);
    lemma_spoken_one(h[12]);
    lemma_spoken_one(h[13]);
    lemma_spoken_one(h[14]);
    lemma_spoken_add(seq![h[9]], seq![h[10]]);
    lemma_spoken_add(a, seq![h[11]]);
    lemma_spoken_add(b, seq![h[12]]);
    lemma_spoken_add(c, seq![h[13]]);
    lemma_spoken_add(d, seq![h[14]]);
    assert(h.subrange(9, 15) =~= e);
    assert(spoken(e) =~= seq![h[11], h[13]]);
    let t = tail_lines();
    assert(rule_text(drop_rule()) =~= t[2]);
    assert(texts_of(seq![drop_rule()]) =~= seq![t[2]]);
    lemma_spoken_one(t[0]);
    lemma_spoken_one(t[1]);
    lemma_spoken_one(t[2]);
    lemma_spoken_add(seq![t[0]], seq![t[1]]);
    lemma_spoken_add(seq![t[0]] + seq![t[1]], seq![t[2]]);
    assert(t.subrange(0, 3) =~= seq![t[0]] + seq![t[1]] + seq![t[2]]);
    assert(spoken(t.subrange(0, 3)) =~= seq![t[2]]);
}

/// A frame may be forwarded: it is on another bridge, it comes from the network machine, or it
/// comes from a space under the names of that space.
pub open spec fn is_admitted(rows: Seq<RegistryRow>, f: Frame) -> bool {
    ||| f.bridge != "br-spaces"@
    ||| f.port == "tap-spaces"@
    ||| exists|i: int|
        0 <= i < rows.len() && (#[trigger] rows[i]).id != MIYORI_NET_ID@ && comes_from(
            rows[i].cid,
            f,
        )
}

/// Read as rules, the chain through which frames are forwarded lets pass what may be forwarded,
/// and nothing else.
pub proof fn the_chain_admits_what_may_pass(rows: Seq<RegistryRow>)
    ensures
        exists|from: int, to: int, rules: Seq<Rule>|
            #[trigger] is_chain(nft_lines(rows), from, to, "spaces"@, "forward"@, rules)
                && forall|f: Frame| #[trigger] passes(rules, f) <==> is_admitted(rows, f),
{
    let all = nft_lines(rows);
    let spaces = ordered_spaces(rows);
    let rules = space_rules(spaces) + seq![drop_rule()];
    let to: int = 15 + 2 * spaces.len() as int + 3;
    lemma_rule_lines(spaces);
    lemma_rule_texts(spaces);
    lemma_spoken_ends();
    let h = head_lines().subrange(9, 15);
    let t = tail_lines().subrange(0, 3);
    assert(all.subrange(9, to) =~= h + rule_lines(spaces) + t);
    lemma_spoken_add(h, rule_lines(spaces));
    lemma_spoken_add(h + rule_lines(spaces), t);
    assert(spoken(all.subrange(9, to)) =~= texts_of(rules));
    reveal_strlit("\tchain spaces {");
    reveal_strlit("\tchain ");
    reveal_strlit("spaces");
    reveal_strlit(" {");
    reveal_strlit("\t\ttype filter hook forward priority filter; policy accept;");
    reveal_strlit("\t\ttype filter hook ");
    reveal_strlit("forward");
    reveal_strlit(" priority filter; policy accept;");
    assert(all[7] =~= "\tchain "@ + "spaces"@ + " {"@);
    assert(all[8] =~= "\t\ttype filter hook "@ + "forward"@ + " priority filter; policy accept;"@);
    assert(all[to] == tail_lines()[3]);
    assert(is_chain(all, 7, to, "spaces"@, "forward"@, rules));
    assert forall|f: Frame| #[trigger] passes(rules, f) <==> is_admitted(rows, f) by {
        lemma_space_rules(spaces, f);
        lemma_passes_add(space_rules(spaces), seq![drop_rule()], f);
        assert(!passes(seq![drop_rule()], f));
        if exists|k: int| 0 <= k < spaces.len() && comes_from((#[trigger] spaces[k]).cid, f) {
            let k = choose|k: int|
                0 <= k < spaces.len() && comes_from((#[trigger] spaces[k]).cid, f);
            assert(spaces.contains(spaces[k]));
            lemma_sort_by_contains(space_rows(rows), by_cid(), spaces[k]);
            let p = choose|p: int| 0 <= p < space_rows(rows).len() && space_rows(rows)[p]
                == spaces[k];
            lemma_space_rows_among(rows, p);
            let i = choose|i: int| 0 <= i < rows.len() && rows[i] == space_rows(rows)[p];
            assert(rows[i].id != MIYORI_NET_ID@ && comes_from(rows[i].cid, f));
        }
        if exists|i: int|
            0 <= i < rows.len() && (#[trigger] rows[i]).id != MIYORI_NET_ID@ && comes_from(
                rows[i].cid,
                f,
            ) {
            let i = choose|i: int|
                0 <= i < rows.len() && (#[trigger] rows[i]).id != MIYORI_NET_ID@ && comes_from(
                    rows[i].cid,
                    f,
                );
            every_space_is_admitted(rows, i);
            let k = choose|k: int| 0 <= k < spaces.len() && spaces[k] == rows[i];
            assert(comes_from(spaces[k].cid, f));
        }
    }
}

/// Nothing on the bridge of the spaces reaches the host itself; other bridges are left alone.
pub proof fn the_host_is_out_of_reach(rows: Seq<RegistryRow>)
    ensures
        exists|from: int, to: int, rules: Seq<Rule>|
            #[trigger] is_chain(nft_lines(rows), from, to, "to-host"@, "input"@, rules) && forall|
                f: Frame,
            | #[trigger] passes(rules, f) <==> f.bridge != "br-spaces"@,
{
    let all = nft_lines(rows);
    let spaces = ordered_spaces(rows);
    lemma_rule_lines(spaces);
    let rules = seq![
        Rule { about: About::OtherBridges("br-spaces"@), accepts: true, counts: false },
        Rule { about: About::All, accepts: false, counts: true },
    ];
    let from: int = 15 + 2 * spaces.len() as int + 8;
    let t = tail_lines();
    assert forall|k: int| 0 <= k < 14 implies all[15 + 2 * spaces.len() as int + k] == #[trigger] t[k] by {}
    reveal_strlit("\tchain to-host {");
    reveal_strlit("\tchain ");
    reveal_strlit("to-host");
    reveal_strlit(" {");
    reveal_strlit("\t\ttype filter hook input priority filter; policy accept;");
    reveal_strlit("\t\ttype filter hook ");
    reveal_strlit("input");
    reveal_strlit(" priority filter; policy accept;");
    assert(t[8] =~= "\tchain "@ + "to-host"@ + " {"@);
    assert(t[9] =~= "\t\ttype filter hook "@ + "input"@ + " priority filter; policy accept;"@);
    reveal_strlit("\t\tmeta ibrname != \"br-spaces\" accept");
    reveal_strlit("\t\tcounter drop");
    reveal_strlit("\t\t");
    reveal_strlit("meta ibrname != \"");
    reveal_strlit("br-spaces");
    reveal_strlit("\" ");
    reveal_strlit("accept");
    reveal_strlit("drop");
    reveal_strlit("counter ");
    assert(rule_text(rules[0]) =~= t[10]);
    assert(rule_text(rules[1]) =~= t[11]);
    lemma_spoken_one(t[10]);
    lemma_spoken_one(t[11]);
    lemma_spoken_add(seq![t[10]], seq![t[11]]);
    assert(all[from + 2] == t[10] && all[from + 3] == t[11]);
    assert(all.subrange(from + 2, from + 4) =~= seq![t[10]] + seq![t[11]]);
    assert(spoken(all.subrange(from + 2, from + 4)) =~= rules.map_values(|r: Rule| rule_text(r)));
    assert(all[from] == t[8] && all[from + 1] == t[9] && all[from + 4] == t[12]);
    assert(is_chain(all, from, from + 4, "to-host"@, "input"@, rules));
    assert forall|f: Frame| #[trigger] passes(rules, f) <==> f.bridge != "br-spaces"@ by {
        let rest = rules.skip(1);
        assert(rest[0] == rules[1]);
        assert(!passes(rest, f));
        assert(rules[0].about == About::OtherBridges("br-spaces"@));
    }
}

/// The rules replace the ones before them as a whole: the table is emptied first, in the same run.
pub proof fn the_table_is_replaced_as_a_whole(rows: Seq<RegistryRow>)
    ensures
        ({
            let all = spoken_lines(nft_lines(rows));
            &&& all.len() > 4
            &&& all[0] == "add table bridge miyori"@
            &&& all[1] == "flush table bridge miyori"@
            &&& all[2] == "table bridge miyori {"@
            &&& all.last() == "}"@
        }),
{
    lemma_marks_of_ends();
    let all = nft_lines(rows);
    let spaces = ordered_spaces(rows);
    lemma_rule_lines(spaces);
    assert(all.last() == tail_lines()[13]);
    lemma_spoken_lines(all);
}

/// The lines that are neither blank nor comments, wherever they stand.
pub open spec fn spoken_lines(rows: Seq<Seq<char>>) -> Seq<Seq<char>>
    decreases rows.len(),
{
    if rows.len() == 0 {
        seq![]
    } else if rows.last().len() == 0 || rows.last()[0] == '#' {
        spoken_lines(rows.drop_last())
    } else {
        spoken_lines(rows.drop_last()).push(rows.last())
    }
}

proof fn lemma_marks_of_ends()
    ensures
        head_lines()[0][0] == '#',
        head_lines()[1][0] == '#',
        head_lines()[2][0] == '#',
        head_lines()[3].len() > 0 && head_lines()[3][0] == 'a',
        head_lines()[4].len() > 0 && head_lines()[4][0] == 'f',
        head_lines()[5].len() == 0,
        head_lines()[6].len() > 0 && head_lines()[6][0] == 't',
        head_lines()[7].len() > 0 && head_lines()[7][0] == '\t',
        head_lines()[8].len() > 0 && head_lines()[8][0] == '\t',
        tail_lines()[13].len() > 0 && tail_lines()[13][0] == '}',
{
    reveal_strlit("#!/usr/sbin/nft -f");
    reveal_strlit(
        "# анти-спуфинг вместо DHCP-lease в miyori-net: демон lease — лишний TCB в роутере,",
    );
    reveal_strlit(
        "# а лгущего гостя он всё равно не остановит — останавливает только эта фильтрация",
    );
    reveal_strlit("add table bridge miyori");
    reveal_strlit("flush table bridge miyori");
    reveal_strlit("");
    reveal_strlit("table bridge miyori {");
    reveal_strlit("\tchain spaces {");
    reveal_strlit("\t\ttype filter hook forward priority filter; policy accept;");
    reveal_strlit("}");
}

/// What stands first among the lines that say something, and last.
proof fn lemma_spoken_lines(all: Seq<Seq<char>>)
    requires
        all.len() > 10,
        forall|i: int| 0 <= i < 9 ==> #[trigger] all[i] == head_lines()[i],
        all.last().len() > 0 && all.last()[0] == '}',
    ensures
        spoken_lines(all).len() > 4,
        spoken_lines(all)[0] == all[3],
        spoken_lines(all)[1] == all[4],
        spoken_lines(all)[2] == all[6],
        spoken_lines(all).last() == all.last(),
{
    let front = all.drop_last();
    assert forall|i: int| 0 <= i < 9 implies #[trigger] front[i] == head_lines()[i] by {
        assert(front[i] == all[i]);
    }
    lemma_spoken_front(front);
    lemma_spoken_front_kept(front, 9);
    let first = spoken_lines(front.take(9));
    let said = spoken_lines(front);
    assert(said[0] == first[0] && said[1] == first[1] && said[2] == first[2]);
    assert(spoken_lines(all) == said.push(all.last()));
}

proof fn lemma_spoken_front(all: Seq<Seq<char>>)
    requires
        all.len() >= 9,
        forall|i: int| 0 <= i < 9 ==> #[trigger] all[i] == head_lines()[i],
    ensures
        spoken_lines(all.take(9)) == seq![
            head_lines()[3],
            head_lines()[4],
            head_lines()[6],
            head_lines()[7],
            head_lines()[8],
        ],
{
    lemma_marks_of_ends();
    let h = head_lines();
    assert(all.take(0) =~= seq![]);
    assert(all.take(1).drop_last() =~= all.take(0) && all.take(1).last() == h[0]);
    assert(all.take(2).drop_last() =~= all.take(1) && all.take(2).last() == h[1]);
    assert(all.take(3).drop_last() =~= all.take(2) && all.take(3).last() == h[2]);
    assert(all.take(4).drop_last() =~= all.take(3) && all.take(4).last() == h[3]);
    assert(all.take(5).drop_last() =~= all.take(4) && all.take(5).last() == h[4]);
    assert(all.take(6).drop_last() =~= all.take(5) && all.take(6).last() == h[5]);
    assert(all.take(7).drop_last() =~= all.take(6) && all.take(7).last() == h[6]);
    assert(all.take(8).drop_last() =~= all.take(7) && all.take(8).last() == h[7]);
    assert(all.take(9).drop_last() =~= all.take(8) && all.take(9).last() == h[8]);
    let none = Seq::<Seq<char>>::empty();
    assert(spoken_lines(all.take(0)) =~= none);
    assert(spoken_lines(all.take(1)) =~= none);
    assert(spoken_lines(all.take(2)) =~= none);
    assert(spoken_lines(all.take(3)) =~= none);
    assert(spoken_lines(all.take(4)) =~= seq![h[3]]);
    assert(spoken_lines(all.take(5)) =~= seq![h[3], h[4]]);
    assert(spoken_lines(all.take(6)) =~= seq![h[3], h[4]]);
    assert(spoken_lines(all.take(7)) =~= seq![h[3], h[4], h[6]]);
    assert(spoken_lines(all.take(8)) =~= seq![h[3], h[4], h[6], h[7]]);
    assert(spoken_lines(all.take(9)) =~= seq![h[3], h[4], h[6], h[7], h[8]]);
}

proof fn lemma_spoken_front_kept(all: Seq<Seq<char>>, n: int)
    requires
        0 <= n <= all.len(),
    ensures
        spoken_lines(all).len() >= spoken_lines(all.take(n)).len(),
        forall|i: int|
            0 <= i < spoken_lines(all.take(n)).len() ==> #[trigger] spoken_lines(all)[i]
                == spoken_lines(all.take(n))[i],
    decreases all.len(),
{
    if all.len() > n {
        lemma_spoken_front_kept(all.drop_last(), n);
        assert(all.drop_last().take(n) =~= all.take(n));
    } else {
        assert(all.take(n) =~= all);
    }
}

} // verus!
