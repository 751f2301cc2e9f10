//! What the manager shows of what the daemon tells.
use crate::daemon::net::{MiyoriNetStatus, PciStatus, RulesetStatus, TapStatus};
use crate::daemon::ops::report::{
    app_item, bridges_item, describe_reply, isolation_item, machine_item, net_reply, network_item,
    pci_item, resources_item, rules_item, tap_item, SpaceFacts,
};
use crate::daemon::ops::shared::Manifest;
use crate::daemon::qemu::SpaceState;
use crate::daemon::store::ConfigView;
use crate::json::{find_field, get, lemma_find_field, opt_flag, opt_num, opt_str, JsonView};
use crate::manager::view::{
    detail_of, detail_rows, net_of, net_rows, strings_among, SpaceDetailRowView,
};
use crate::paths::join_path;
use crate::text::{dec, opt_text, texts, trim};
use vstd::prelude::*;

verus! {

/// A row of that name holds this value.
pub open spec fn says(rows: Seq<SpaceDetailRowView>, key: Seq<char>, value: Seq<char>) -> bool {
    exists|i: int| 0 <= i < rows.len() && (#[trigger] rows[i]).key == key && rows[i].value == value
}

/// What tells the keys of a description apart.
spec fn key_mark(key: Seq<char>) -> (nat, char) {
    (key.len(), key[0])
}

proof fn lemma_description_keys()
    ensures
        key_mark("id"@) == (2nat, 'i'),
        key_mark("profile"@) == (7nat, 'p'),
        key_mark("state"@) == (5nat, 's'),
        key_mark("cid"@) == (3nat, 'c'),
        key_mark("uid"@) == (3nat, 'u'),
        key_mark("digest"@) == (6nat, 'd'),
        key_mark("label"@) == (5nat, 'l'),
        key_mark("color"@) == (5nat, 'c'),
        key_mark("encrypted"@) == (9nat, 'e'),
        key_mark("created"@) == (7nat, 'c'),
        key_mark("description"@) == (11nat, 'd'),
        key_mark("app"@) == (3nat, 'a'),
        key_mark("resources"@) == (9nat, 'r'),
        key_mark("data-qcow2-bytes"@) == (16nat, 'd'),
        key_mark("manifest-path"@) == (13nat, 'm'),
        key_mark("isolation"@) == (9nat, 'i'),
        key_mark("network"@) == (7nat, 'n'),
        key_mark("clean-shutdown"@) == (14nat, 'c'),
        key_mark("rss-kib"@) == (7nat, 'r'),
        key_mark("uptime-secs"@) == (11nat, 'u'),
        key_mark("log-tail"@) == (8nat, 'l'),
{
    reveal_strlit("id");
    reveal_strlit("profile");
    reveal_strlit("state");
    reveal_strlit("cid");
    reveal_strlit("uid");
    reveal_strlit("digest");
    reveal_strlit("label");
    reveal_strlit("color");
    reveal_strlit("encrypted");
    reveal_strlit("created");
    reveal_strlit("description");
    reveal_strlit("app");
    reveal_strlit("resources");
    reveal_strlit("data-qcow2-bytes");
    reveal_strlit("manifest-path");
    reveal_strlit("isolation");
    reveal_strlit("network");
    reveal_strlit("clean-shutdown");
    reveal_strlit("rss-kib");
    reveal_strlit("uptime-secs");
    reveal_strlit("log-tail");
}

spec fn description_mark(i: int) -> (nat, char) {
    if i == 0 {
        (2nat, 'i')
    } else if i == 1 {
        (7nat, 'p')
    } else if i == 2 {
        (5nat, 's')
    } else if i == 3 {
        (3nat, 'c')
    } else if i == 4 {
        (3nat, 'u')
    } else if i == 5 {
        (6nat, 'd')
    } else if i == 6 {
        (5nat, 'l')
    } else if i == 7 {
        (5nat, 'c')
    } else if i == 8 {
        (9nat, 'e')
    } else if i == 9 {
        (7nat, 'c')
    } else if i == 10 {
        (11nat, 'd')
    } else if i == 11 {
        (3nat, 'a')
    } else if i == 12 {
        (9nat, 'r')
    } else if i == 13 {
        (16nat, 'd')
    } else if i == 14 {
        (13nat, 'm')
    } else if i == 15 {
        (9nat, 'i')
    } else if i == 16 {
        (7nat, 'n')
    } else if i == 17 {
        (14nat, 'c')
    } else if i == 18 {
        (7nat, 'r')
    } else if i == 19 {
        (11nat, 'u')
    } else {
        (8nat, 'l')
    }
}

/// Every field of a description is found under its key.
#[verifier::rlimit(40)]
proof fn lemma_description(state_dir: Seq<char>, c: ConfigView, m: Manifest, facts: SpaceFacts, i: int)
    requires
        0 <= i < 21,
    ensures
        ({
            let v = describe_reply(state_dir, c, m, facts);
            get(v, v->Object_0[i].0) == Some(v->Object_0[i].1)
        }),
{
    lemma_description_keys();
    let f = describe_reply(state_dir, c, m, facts)->Object_0;
    assert forall|k: int| 0 <= k < 21 implies key_mark((#[trigger] f[k]).0) == description_mark(
        k,
    ) by {}
    assert forall|a: int, b: int| 0 <= a < b < f.len() implies #[trigger] f[a].0
        != #[trigger] f[b].0 by {
        assert(key_mark(f[a].0) == description_mark(a));
        assert(key_mark(f[b].0) == description_mark(b));
    }
    lemma_find_field(f, i);
}

/// The parts of a manifest in a description.
proof fn lemma_parts(m: Manifest)
    ensures
        get(app_item(m), "mode"@) == Some(JsonView::Str(m.app_mode@)),
        get(app_item(m), "command"@) == Some(JsonView::Str(m.app_command@)),
        get(resources_item(m), "memory-mb"@) == Some(JsonView::Unsigned(m.memory_mb as u64)),
        get(resources_item(m), "cpus"@) == Some(JsonView::Unsigned(m.cpus as u64)),
        get(resources_item(m), "disk-gb"@) == Some(JsonView::Unsigned(m.disk_gb as u64)),
        get(resources_item(m), "data-mb"@) == Some(JsonView::Unsigned(m.data_mb as u64)),
        get(isolation_item(m), "level"@) == Some(JsonView::Str(m.isolation_level@)),
        get(isolation_item(m), "gpu"@) == Some(JsonView::Str(m.isolation_gpu@)),
        get(isolation_item(m), "reason"@) == Some(JsonView::Str(m.isolation_reason@)),
        get(network_item(m), "via"@) == Some(JsonView::Str(m.network_via@)),
{
    reveal_strlit("mode");
    reveal_strlit("command");
    reveal_strlit("memory-mb");
    reveal_strlit("cpus");
    reveal_strlit("disk-gb");
    reveal_strlit("data-mb");
    reveal_strlit("level");
    reveal_strlit("gpu");
    reveal_strlit("reason");
    reveal_strlit("via");
    assert("mode"@.len() == 4 && "command"@.len() == 7 && "memory-mb"@.len() == 9);
    assert("cpus"@.len() == 4 && "disk-gb"@.len() == 7 && "data-mb"@.len() == 7);
    assert("disk-gb"@[1] == 'i' && "data-mb"@[1] == 'a');
    assert("level"@.len() == 5 && "gpu"@.len() == 3 && "reason"@.len() == 6);
    reveal_with_fuel(find_field, 5);
}

/// What is written on the record of a space and in the manifest of its profile, and what was
/// observed of its machine, is what the manager shows, each under its own name and in its own unit:
/// memory and data in mebibytes, the memory in use only of a machine that lives.
#[verifier::rlimit(60)]
pub proof fn the_manager_shows_the_description(
    state_dir: Seq<char>,
    c: ConfigView,
    m: Manifest,
    facts: SpaceFacts,
)
    ensures
        detail_of(Ok(describe_reply(state_dir, c, m, facts))) matches Ok(shown) && ({
            let rows = shown.0;
            &&& says(rows, "Профиль"@, c.profile)
            &&& says(rows, "Описание"@, m.description@)
            &&& says(
                rows,
                "Состояние"@,
                match facts.state {
                    SpaceState::Running => "running"@,
                    SpaceState::Stopped => "stopped"@,
                    SpaceState::Unresponsive => "unresponsive"@,
                },
            )
            &&& says(rows, "CID"@, dec(c.cid as nat))
            &&& says(rows, "uid"@, dec(c.uid as nat))
            &&& says(rows, "Создан"@, c.created)
            &&& says(rows, "Приложение"@, m.app_mode@ + " · "@ + m.app_command@)
            &&& says(rows, "Шаблон"@, c.digest)
            &&& says(
                rows,
                "Манифест"@,
                join_path(
                    join_path(join_path(state_dir, "profiles"@), c.profile),
                    "manifest.toml"@,
                ),
            )
            &&& says(rows, "Сеть"@, m.network_via@)
            &&& m.isolation_level@ != "reduced"@ ==> says(
                rows,
                "Уровень изоляции"@,
                m.isolation_level@,
            )
            &&& m.isolation_level@ == "reduced"@ && trim(m.isolation_reason@).len() > 0 ==> says(
                rows,
                "Уровень изоляции"@,
                "reduced — "@ + m.isolation_reason@,
            )
            &&& m.isolation_level@ == "reduced"@ && trim(m.isolation_reason@).len() == 0 ==> says(
                rows,
                "Уровень изоляции"@,
                "reduced — причина не указана в манифесте"@,
            )
            &&& says(rows, "GPU"@, m.isolation_gpu@)
            &&& says(
                rows,
                "Память"@,
                "заказано "@ + (dec(m.memory_mb as nat) + " МиБ"@) + " · фактически "@ + (
                match facts.rss_kib {
                    Some(kib) if facts.alive => dec((kib / 1024) as nat) + " МиБ"@,
                    _ => "—"@,
                }),
            )
            &&& facts.data_qcow2_bytes is None ==> says(
                rows,
                "Том данных"@,
                "заказано "@ + (dec(m.data_mb as nat) + " МиБ"@) + " · файл "@ + "—"@,
            )
            &&& says(rows, "CPU"@, dec(m.cpus as nat))
            &&& says(rows, "Диск"@, dec(m.disk_gb as nat) + " ГиБ"@)
            &&& says(
                rows,
                "Шифрование диска"@,
                if c.encrypted {
                    "да"@
                } else {
                    "нет"@
                },
            )
            &&& says(
                rows,
                "Чистый останов"@,
                match c.clean_shutdown {
                    Some(true) => "да"@,
                    Some(false) => "нет"@,
                    None => "ещё не останавливали"@,
                },
            )
            &&& !facts.alive || facts.uptime_secs is None ==> says(rows, "Время работы"@, "—"@)
            &&& shown.1 == texts(facts.log_tail@)
        }),
{
    let v = describe_reply(state_dir, c, m, facts);
    let rows = detail_rows(v);
    lemma_parts(m);
    lemma_description(state_dir, c, m, facts, 1);
    lemma_description(state_dir, c, m, facts, 2);
    lemma_description(state_dir, c, m, facts, 3);
    lemma_description(state_dir, c, m, facts, 4);
    lemma_description(state_dir, c, m, facts, 5);
    lemma_description(state_dir, c, m, facts, 8);
    lemma_description(state_dir, c, m, facts, 9);
    lemma_description(state_dir, c, m, facts, 10);
    lemma_description(state_dir, c, m, facts, 11);
    lemma_description(state_dir, c, m, facts, 12);
    lemma_description(state_dir, c, m, facts, 13);
    lemma_description(state_dir, c, m, facts, 14);
    lemma_description(state_dir, c, m, facts, 15);
    lemma_description(state_dir, c, m, facts, 16);
    lemma_description(state_dir, c, m, facts, 17);
    lemma_description(state_dir, c, m, facts, 18);
    lemma_description(state_dir, c, m, facts, 19);
    lemma_description(state_dir, c, m, facts, 20);
    let f = v->Object_0;
    assert(f[1].0 == "profile"@ && f[2].0 == "state"@ && f[3].0 == "cid"@ && f[4].0 == "uid"@);
    assert(f[5].0 == "digest"@ && f[8].0 == "encrypted"@ && f[9].0 == "created"@);
    assert(f[10].0 == "description"@ && f[11].0 == "app"@ && f[12].0 == "resources"@);
    assert(f[13].0 == "data-qcow2-bytes"@ && f[14].0 == "manifest-path"@);
    assert(f[15].0 == "isolation"@ && f[16].0 == "network"@ && f[17].0 == "clean-shutdown"@);
    assert(f[18].0 == "rss-kib"@ && f[19].0 == "uptime-secs"@ && f[20].0 == "log-tail"@);
    assert(rows[0].key == "Профиль"@ && rows[1].key == "Описание"@ && rows[2].key == "Состояние"@);
    assert(rows[3].key == "CID"@ && rows[4].key == "uid"@ && rows[5].key == "Создан"@);
    assert(rows[6].key == "Приложение"@ && rows[7].key == "Шаблон"@ && rows[8].key == "Манифест"@);
    assert(rows[9].key == "Сеть"@ && rows[10].key == "Уровень изоляции"@ && rows[11].key == "GPU"@);
    assert(rows[12].key == "Память"@ && rows[13].key == "Том данных"@ && rows[14].key == "CPU"@);
    assert(rows[15].key == "Диск"@ && rows[16].key == "Шифрование диска"@);
    assert(rows[17].key == "Время работы"@ && rows[18].key == "Чистый останов"@);
    lemma_strings(texts(facts.log_tail@));
}

proof fn lemma_strings(given: Seq<Seq<char>>)
    ensures
        strings_among(given.map_values(|s: Seq<char>| JsonView::Str(s))) == given,
    decreases given.len(),
{
    let items = given.map_values(|s: Seq<char>| JsonView::Str(s));
    if given.len() > 0 {
        lemma_strings(given.drop_last());
        assert(items.drop_last() =~= given.drop_last().map_values(
            |s: Seq<char>| JsonView::Str(s),
        ));
        assert(given.drop_last().push(given.last()) =~= given);
    } else {
        assert(strings_among(items) =~= given);
    }
}

proof fn lemma_network_parts(bridge: bool, captive: bool, pci: PciStatus, net: MiyoriNetStatus, rules: RulesetStatus)
    ensures
        get(bridges_item(bridge, captive), "br-spaces"@) == Some(JsonView::Bool(bridge)),
        get(bridges_item(bridge, captive), "br-captive"@) == Some(JsonView::Bool(captive)),
        get(pci_item(pci), "address"@) == Some(JsonView::Str(pci.address@)),
        get(pci_item(pci), "present"@) == Some(JsonView::Bool(pci.present)),
        get(pci_item(pci), "driver"@) == Some(opt_str(opt_text(pci.driver))),
        get(machine_item(net), "running"@) == Some(JsonView::Bool(net.running)),
        get(machine_item(net), "pid"@) == Some(
            opt_num(
                match net.pid {
                    Some(p) => Some(p as u64),
                    None => None,
                },
            ),
        ),
        get(machine_item(net), "uplink"@) == Some(opt_str(opt_text(net.uplink))),
        get(rules_item(rules), "available"@) == Some(JsonView::Bool(rules.available)),
        get(rules_item(rules), "text"@) == Some(JsonView::Str(rules.text@)),
        get(rules_item(rules), "truncated-from"@) == Some(
            opt_num(
                match rules.truncated_from {
                    Some(n) => Some(n as u64),
                    None => None,
                },
            ),
        ),
{
    reveal_strlit("br-spaces");
    reveal_strlit("br-captive");
    reveal_strlit("address");
    reveal_strlit("present");
    reveal_strlit("driver");
    reveal_strlit("running");
    reveal_strlit("pid");
    reveal_strlit("uplink");
    reveal_strlit("tunnel");
    reveal_strlit("available");
    reveal_strlit("text");
    reveal_strlit("truncated-from");
    assert("br-spaces"@.len() == 9 && "br-captive"@.len() == 10);
    assert("address"@[0] == 'a' && "present"@[0] == 'p' && "driver"@.len() == 6);
    assert("address"@.len() == 7 && "present"@.len() == 7);
    assert("running"@.len() == 7 && "pid"@.len() == 3 && "uplink"@.len() == 6);
    assert("available"@.len() == 9 && "text"@.len() == 4 && "truncated-from"@.len() == 14);
    reveal_with_fuel(find_field, 5);
}

/// A pair of a name and a value stands among the rows.
pub open spec fn tells(rows: Seq<(Seq<char>, Seq<char>)>, key: Seq<char>, value: Seq<char>) -> bool {
    exists|i: int| 0 <= i < rows.len() && #[trigger] rows[i] == (key, value)
}

/// What was observed of the network is what the manager shows, and a part of the rules is never
/// passed off as all of them.
#[verifier::rlimit(60)]
pub proof fn the_manager_shows_the_network(
    bridge: bool,
    captive: bool,
    taps: Seq<TapStatus>,
    pci: PciStatus,
    net: MiyoriNetStatus,
    rules: RulesetStatus,
)
    ensures
        net_of(Ok(net_reply(bridge, captive, taps, pci, net, rules))) matches Ok(shown) && ({
            let rows = shown.rows;
            &&& tells(
                rows,
                "Мост br-spaces"@,
                if bridge {
                    "да"@
                } else {
                    "нет"@
                },
            )
            &&& tells(
                rows,
                "Мост br-captive"@,
                if captive {
                    "да"@
                } else {
                    "нет"@
                },
            )
            &&& forall|i: int|
                0 <= i < taps.len() ==> tells(
                    rows,
                    "Tap "@ + (#[trigger] taps[i]).name@,
                    if taps[i].isolated == Some(true) {
                        "изолирован"@
                    } else {
                        "не изолирован"@
                    },
                )
            &&& tells(
                rows,
                "Аплинк PCI"@,
                pci.address@ + " · "@ + (if pci.present {
                    "подключен"@
                } else {
                    "не подключен"@
                }) + " · драйвер "@ + (match pci.driver {
                    Some(d) => d@,
                    None => "—"@,
                }),
            )
            &&& tells(
                rows,
                "miyori-net"@,
                if net.running {
                    "поднят"@
                } else {
                    "не поднят"@
                },
            )
            &&& tells(
                rows,
                "miyori-net PID"@,
                match net.pid {
                    Some(p) => dec(p as nat),
                    None => "—"@,
                },
            )
            &&& tells(
                rows,
                "miyori-net аплинк"@,
                match net.uplink {
                    Some(u) => u@,
                    None => "—"@,
                },
            )
            &&& rows.len() == taps.len() + 8
            &&& shown.ruleset_text == rules.text@
            &&& !rules.available ==> shown.ruleset_note == "ruleset недоступен для чтения"@
            &&& rules.available && rules.truncated_from is None ==> shown.ruleset_note.len() == 0
            &&& rules.available ==> (rules.truncated_from matches Some(total)
                ==> shown.ruleset_note == "показано "@ + dec(rules.text@.len()) + " из "@ + dec(
                total as nat,
            ) + " символов — ruleset обрезан"@)
        }),
{
    let v = net_reply(bridge, captive, taps, pci, net, rules);
    let f = v->Object_0;
    lemma_network_parts(bridge, captive, pci, net, rules);
    reveal_strlit("bridges");
    reveal_strlit("taps");
    reveal_strlit("uplink-pci");
    reveal_strlit("miyori-net");
    reveal_strlit("ruleset");
    reveal_strlit("killswitch_counters");
    reveal_strlit("name");
    reveal_strlit("isolated");
    assert("bridges"@.len() == 7 && "bridges"@[0] == 'b' && "taps"@.len() == 4);
    assert("uplink-pci"@.len() == 10 && "uplink-pci"@[0] == 'u');
    assert("miyori-net"@.len() == 10 && "miyori-net"@[0] == 'm');
    assert("ruleset"@.len() == 7 && "ruleset"@[0] == 'r' && "killswitch_counters"@.len() == 19);
    assert("name"@.len() == 4 && "isolated"@.len() == 8);
    assert forall|a: int, b: int| 0 <= a < b < f.len() implies #[trigger] f[a].0
        != #[trigger] f[b].0 by {
        assert(f[a].0.len() != f[b].0.len() || f[a].0[0] != f[b].0[0]);
    }
    lemma_find_field(f, 0);
    lemma_find_field(f, 1);
    lemma_find_field(f, 2);
    lemma_find_field(f, 3);
    lemma_find_field(f, 4);
    let items = taps.map_values(|t: TapStatus| tap_item(t));
    assert(get(v, "taps"@) == Some(JsonView::Array(items)));
    let rows = net_rows(v);
    let n = taps.len() as int;
    assert(rows.len() == n + 8);
    assert(rows[0].0 == "Мост br-spaces"@ && rows[1].0 == "Мост br-captive"@);
    assert forall|i: int| 0 <= i < taps.len() implies tells(
        rows,
        "Tap "@ + (#[trigger] taps[i]).name@,
        if taps[i].isolated == Some(true) {
            "изолирован"@
        } else {
            "не изолирован"@
        },
    ) by {
        reveal_with_fuel(find_field, 3);
        let tap = tap_item(taps[i]);
        assert(items[i] == tap);
        assert(get(tap, "name"@) == Some(JsonView::Str(taps[i].name@)));
        assert(get(tap, "isolated"@) == Some(opt_flag(taps[i].isolated)));
        assert(rows[2 + i] == crate::manager::view::tap_row(tap));
    }
    assert(rows[n + 2].0 == "Аплинк PCI"@ && rows[n + 3].0 == "miyori-net"@);
    assert(rows[n + 4].0 == "miyori-net PID"@ && rows[n + 5].0 == "miyori-net аплинк"@);
}

} // verus!
