//! The words and numbers in which the manager shows what the daemon answers.
use crate::daemon::ops::shared::state_text;
use crate::daemon::qemu::SpaceState;
use crate::ids::is_color;
use crate::json::{as_bool, as_i64, as_str, as_u64, get, get2, JsonView};
use crate::label::bar::{color_of, hex_number};
use crate::manager::daemon::timeout_of;
use crate::manager::report::{
    card_words, detail_words, manager_of, net_words, parted, shown_value, space_words, value_of,
    ManagerView,
};
use crate::manager::rules::{
    channels, css_class, profile_words, row_text, state_words, tooltip,
};
use crate::manager::view::{
    answer, app_text, detail_of, disk_text, half_even, level_text, memory_text, mib_tenths, net_of,
    precision_unit, profile_row_of, profiles_of, shutdown_text, size_text, space_row_of, spaces_of,
    tunnel_text, uptime_text, volume_text, NetFacts, ProfileRowView, Reply, SpaceDetailRowView,
    SpaceRowView,
};
use crate::text::{
    dec, dec_int, hex_value, is_hex_digit, lines, occurs_at, pos_from, trim,
};
use vstd::prelude::*;

verus! {

/// A refusal is shown by its code and its message, a failure of the transport in its own words.
pub proof fn a_refusal_is_shown_as_it_came(code: String, message: String)
    ensures
        answer(Ok(Reply::Refusal { code, message })) == Err::<JsonView, Seq<char>>(
            code@ + ": "@ + message@,
        ),
        answer(Err(message)) == Err::<JsonView, Seq<char>>(message@),
{
}

/// An answer that is not what was asked for is no empty answer: it is told which one it is, and so
/// is an item that lacks what it has to have.
pub proof fn an_unexpected_answer_is_told(v: JsonView, message: Seq<char>, k: int)
    ensures
        !(v is Array) ==> {
            &&& spaces_of(Ok(v)) == Err::<Seq<SpaceRowView>, Seq<char>>(
                "демон вернул неожиданный ответ вместо списка спейсов"@,
            )
            &&& profiles_of(Ok(v)) == Err::<Seq<ProfileRowView>, Seq<char>>(
                "демон вернул неожиданный ответ вместо списка профилей"@,
            )
        },
        !(v is Object) ==> {
            &&& detail_of(Ok(v)) == Err::<
                (Seq<SpaceDetailRowView>, Seq<Seq<char>>),
                Seq<char>,
            >("демон вернул неожиданный ответ вместо описания спейса"@)
            &&& net_of(Ok(v)) == Err::<NetFacts, Seq<char>>(
                "демон вернул неожиданный ответ вместо статуса сети"@,
            )
        },
        v matches JsonView::Array(items) ==> 0 <= k < items.len() ==> {
            &&& space_row_of(items[k]) is None ==> spaces_of(Ok(v)) == Err::<
                Seq<SpaceRowView>,
                Seq<char>,
            >("демон прислал спейс без обязательного поля"@)
            &&& profile_row_of(items[k]) is None ==> profiles_of(Ok(v)) == Err::<
                Seq<ProfileRowView>,
                Seq<char>,
            >("демон прислал профиль без обязательного поля"@)
            &&& (spaces_of(Ok(v)) matches Ok(rows) ==> rows.len() == items.len() && Some(rows[k])
                == space_row_of(items[k]))
            &&& (profiles_of(Ok(v)) matches Ok(rows) ==> rows.len() == items.len() && Some(rows[k])
                == profile_row_of(items[k]))
        },
        spaces_of(Err(message)) == Err::<Seq<SpaceRowView>, Seq<char>>(
            message,
        ),
        profiles_of(Err(message)) == Err::<Seq<ProfileRowView>, Seq<char>>(
            message,
        ),
{
    if let JsonView::Array(items) = v {
        if 0 <= k < items.len() {
            assert(space_row_of(items[k]) == space_row_of(items[k]));
            assert(profile_row_of(items[k]) == profile_row_of(items[k]));
        }
    }
}

/// An uptime is told in its two largest units, rounded down: hours and minutes, minutes and
/// seconds, or seconds alone.
pub proof fn an_uptime_is_told_in_its_largest_units(v: JsonView, secs: u64, large: nat, small: nat)
    requires
        as_u64(get(v, "uptime-secs"@)) == Some(secs),
        small < 60,
    ensures
        3600 <= secs && 3600 * large + 60 * small <= secs < 3600 * large + 60 * small + 60
            ==> uptime_text(v) == dec(large) + " ч "@ + dec(small) + " мин"@,
        60 <= secs < 3600 && secs == 60 * large + small ==> uptime_text(v) == dec(large) + " мин "@
            + dec(small) + " с"@,
        secs < 60 ==> uptime_text(v) == dec(secs as nat) + " с"@,
{
    if 3600 <= secs && 3600 * large + 60 * small <= secs < 3600 * large + 60 * small + 60 {
        assert(secs / 3600 == large);
        assert(secs % 3600 / 60 == small);
    }
    if 60 <= secs < 3600 && secs == 60 * large + small {
        assert(secs / 60 == large && secs % 60 == small);
    }
}

/// The size of a file is told to the nearest tenth of a mebibyte, as far as a double holds the
/// number of its bytes.
pub proof fn a_size_is_told_to_the_nearest_tenth(bytes: nat, whole: nat, tenths: nat)
    requires
        bytes < 0x20_0000_0000_0000,
        tenths < 10,
    ensures
        0x20_0000 * mib_tenths(bytes) <= 20 * bytes + 0x10_0000,
        20 * bytes <= 0x20_0000 * mib_tenths(bytes) + 0x10_0000,
        mib_tenths(bytes) == 10 * whole + tenths ==> size_text(bytes) == dec(whole) + "."@ + dec(
            tenths,
        ) + " МиБ"@,
{
    assert(precision_unit(bytes) == 1);
    assert(half_even(bytes, 1) == bytes);
    let a = 10 * bytes;
    assert(mib_tenths(bytes) == half_even(a, 0x10_0000)) by {
        assert(half_even(bytes, 1) * 1 == bytes) by (nonlinear_arith)
            requires
                half_even(bytes, 1) == bytes,
        ;
    }
    let q: nat = a / 0x10_0000;
    let r: nat = a % 0x10_0000;
    assert(a == 0x10_0000 * q + r && r < 0x10_0000);
    let t: nat = mib_tenths(bytes);
    assert(t == (if 2 * r < 0x10_0000 || (2 * r == 0x10_0000 && q % 2 == 0) {
        q
    } else {
        q + 1
    }));
    if mib_tenths(bytes) == 10 * whole + tenths {
        assert(mib_tenths(bytes) / 10 == whole && mib_tenths(bytes) % 10 == tenths);
    }
}

/// What a space was given and what it takes stand side by side: its memory in whole mebibytes, its
/// data volume and the file of it, its disk in gibibytes. What is not known is a dash.
pub proof fn what_is_ordered_stands_beside_what_is_taken(
    v: JsonView,
    ordered: u64,
    kib: u64,
    mib: nat,
    bytes: u64,
    gb: i64,
)
    requires
        1024 * mib <= kib < 1024 * mib + 1024,
    ensures
        as_u64(get2(v, "resources"@, "memory-mb"@)) == Some(ordered) && as_u64(
            get(v, "rss-kib"@),
        ) == Some(kib) ==> memory_text(v) == "заказано "@ + (dec(ordered as nat) + " МиБ"@)
            + " · фактически "@ + (dec(mib) + " МиБ"@),
        as_u64(get2(v, "resources"@, "memory-mb"@)) == Some(ordered) && as_u64(
            get(v, "rss-kib"@),
        ) is None ==> memory_text(v) == "заказано "@ + (dec(ordered as nat) + " МиБ"@)
            + " · фактически "@ + "—"@,
        as_u64(get2(v, "resources"@, "data-mb"@)) == Some(ordered) && as_u64(
            get(v, "data-qcow2-bytes"@),
        ) == Some(bytes) ==> volume_text(v) == "заказано "@ + (dec(ordered as nat) + " МиБ"@)
            + " · файл "@ + size_text(bytes as nat),
        as_u64(get2(v, "resources"@, "data-mb"@)) == Some(ordered) && as_u64(
            get(v, "data-qcow2-bytes"@),
        ) is None ==> volume_text(v) == "заказано "@ + (dec(ordered as nat) + " МиБ"@) + " · файл "@
            + "—"@,
        as_i64(get2(v, "resources"@, "disk-gb"@)) == Some(gb) ==> disk_text(v) == dec_int(gb as int)
            + " ГиБ"@,
{
    assert(kib / 1024 == mib);
}

/// A level that is reduced is never shown without its reason, nor without the words that there is
/// none; every other level is shown as it is.
pub proof fn a_reduced_level_has_its_reason(v: JsonView, level: Seq<char>, reason: Seq<char>)
    requires
        as_str(get2(v, "isolation"@, "level"@)) == Some(level),
    ensures
        level != "reduced"@ ==> level_text(v) == level,
        level == "reduced"@ && as_str(get2(v, "isolation"@, "reason"@)) == Some(reason) && trim(
            reason,
        ).len() > 0 ==> level_text(v) == "reduced — "@ + reason,
        level == "reduced"@ && as_str(get2(v, "isolation"@, "reason"@)) is None ==> level_text(v)
            == "reduced — причина не указана в манифесте"@,
        level == "reduced"@ && as_str(get2(v, "isolation"@, "reason"@)) == Some(reason) && trim(
            reason,
        ).len() == 0 ==> level_text(v) == "reduced — причина не указана в манифесте"@,
{
}

/// How an application is run stands before what is run; whether a space was stopped in good order
/// is told in one word, and that it never was as well.
pub proof fn an_application_and_a_stop_are_told(v: JsonView, mode: Seq<char>, command: Seq<char>)
    ensures
        as_str(get2(v, "app"@, "mode"@)) == Some(mode) && as_str(get2(v, "app"@, "command"@))
            == Some(command) ==> app_text(v) == mode + " · "@ + command,
        as_bool(get(v, "clean-shutdown"@)) == Some(true) ==> shutdown_text(v) == "да"@,
        as_bool(get(v, "clean-shutdown"@)) == Some(false) ==> shutdown_text(v) == "нет"@,
        as_bool(get(v, "clean-shutdown"@)) is None ==> shutdown_text(v) == "ещё не останавливали"@,
{
}

/// A tunnel is told by its interface, and by whether it is set up and routed.
pub proof fn a_tunnel_is_told(v: JsonView, t: JsonView, ifc: Seq<char>)
    requires
        get2(v, "miyori-net"@, "tunnel"@) == Some(t),
        as_str(get(t, "ifc"@)) == Some(ifc),
    ensures
        as_bool(get(t, "set"@)) == Some(true) && as_bool(get(t, "route"@)) == Some(true)
            ==> tunnel_text(v) == "ifc="@ + ifc + " set="@ + "да"@ + " route="@ + "да"@,
        as_bool(get(t, "set"@)) == Some(true) && as_bool(get(t, "route"@)) == Some(false)
            ==> tunnel_text(v) == "ifc="@ + ifc + " set="@ + "да"@ + " route="@ + "нет"@,
        as_bool(get(t, "set"@)) == Some(false) && as_bool(get(t, "route"@)) == Some(true)
            ==> tunnel_text(v) == "ifc="@ + ifc + " set="@ + "нет"@ + " route="@ + "да"@,
        as_bool(get(t, "set"@)) == Some(false) && as_bool(get(t, "route"@)) == Some(false)
            ==> tunnel_text(v) == "ifc="@ + ifc + " set="@ + "нет"@ + " route="@ + "нет"@,
{
}

// ---------------------------------------------------------------------------------------------
// Words for a space
// ---------------------------------------------------------------------------------------------

/// A colour looks the same in the window and on the strip.
pub proof fn a_colour_is_the_same_everywhere(color: Seq<char>)
    requires
        is_color(color),
    ensures
        channels(color) matches Some((r, g, b)) && color_of(color) == Some(
            (0xff00_0000 + 0x1_0000 * r + 0x100 * g + b) as u32,
        ),
{
    let digits = color.skip(1);
    assert forall|i: int| 0 <= i < digits.len() implies is_hex_digit(#[trigger] digits[i]) by {
        assert(digits[i] == color[i + 1]);
    }
    assert(is_hex_digit(color[1]) && is_hex_digit(color[2]) && is_hex_digit(color[3]));
    assert(is_hex_digit(color[4]) && is_hex_digit(color[5]) && is_hex_digit(color[6]));
    let d5 = digits.drop_last();
    let d4 = d5.drop_last();
    let d3 = d4.drop_last();
    let d2 = d3.drop_last();
    let d1 = d2.drop_last();
    assert(digits.last() == color[6] && d5.last() == color[5] && d4.last() == color[4]);
    assert(d3.last() == color[3] && d2.last() == color[2] && d1.last() == color[1]);
    assert(d1.drop_last().len() == 0);
    assert(hex_number(d1.drop_last()) == 0);
    assert(hex_number(d1) == hex_value(color[1]));
    assert(hex_number(d2) == 16 * hex_number(d1) + hex_value(color[2]));
    assert(hex_number(d3) == 16 * hex_number(d2) + hex_value(color[3]));
    assert(hex_number(d4) == 16 * hex_number(d3) + hex_value(color[4]));
    assert(hex_number(d5) == 16 * hex_number(d4) + hex_value(color[5]));
    assert(hex_number(digits) == 16 * hex_number(d5) + hex_value(color[6]));
}

/// The state that the daemon tells is shown in a style of its own and in a word of its own; what
/// is no state of a space is shown as it came, in the style of the unknown.
pub proof fn a_state_is_shown_in_its_own_way(state: SpaceState, other: Seq<char>)
    requires
        other != "running"@,
        other != "stopped"@,
        other != "unresponsive"@,
    ensures
        css_class(state_text(state)) == "state-"@ + state_text(state),
        css_class(other) == "state-unknown"@,
        state_words(other) == other,
        state_words(state_text(SpaceState::Running)) == "Работает"@,
        state_words(state_text(SpaceState::Stopped)) == "Остановлен"@,
        state_words(state_text(SpaceState::Unresponsive)) == "Не отвечает"@,
{
    reveal_strlit("running");
    reveal_strlit("stopped");
    reveal_strlit("unresponsive");
    reveal_strlit("state-");
    reveal_strlit("state-running");
    reveal_strlit("state-stopped");
    reveal_strlit("state-unresponsive");
    assert("running"@[0] == 'r' && "stopped"@[0] == 's' && "unresponsive"@[0] == 'u');
    assert("state-running"@ =~= "state-"@ + "running"@);
    assert("state-stopped"@ =~= "state-"@ + "stopped"@);
    assert("state-unresponsive"@ =~= "state-"@ + "unresponsive"@);
}

/// A space in a line, in a tooltip and in print names what it is: nothing stands in the place of
/// something else.
pub proof fn a_space_is_put_into_words(row: SpaceRowView)
    ensures
        row_text(row) == row.id + " · "@ + row.state + " · "@ + row.profile + " ("@ + row.level
            + ")"@,
        tooltip(row) == row_text(row) + "\nМетка: "@ + row.label + "\n"@ + row.level_reason,
        row.level_reason.len() > 0 ==> space_words(row) == "СПЕЙС "@ + row.id + " · "@ + row.label
            + " · "@ + row.color + " · профиль "@ + row.profile + " · "@ + row.state + " · уровень "@
            + row.level + (" — "@ + row.level_reason),
        row.level_reason.len() == 0 ==> space_words(row) == "СПЕЙС "@ + row.id + " · "@ + row.label
            + " · "@ + row.color + " · профиль "@ + row.profile + " · "@ + row.state + " · уровень "@
            + row.level + ""@,
{
}

/// The page of images says of a profile whether its image is there, is still to be built, or cannot
/// be built at all.
pub proof fn an_image_is_put_into_words(row: ProfileRowView, level: Seq<char>, error: Seq<char>)
    requires
        row.isolation_level == Some(level),
        row.manifest_error == Some(error) || row.manifest_ok,
    ensures
        row.manifest_ok && row.template ==> profile_words(row) == "Образ готов · уровень "@ + level
            + "\nНовая сборка не меняет уже созданные спейсы."@,
        row.manifest_ok && !row.template ==> profile_words(row) == "Образ ещё не собран · уровень "@
            + level + "\nСоберите его перед созданием спейса."@,
        !row.manifest_ok ==> profile_words(row) == "Манифест не читается: "@ + error,
{
}

// ---------------------------------------------------------------------------------------------
// Cards and printed lines
// ---------------------------------------------------------------------------------------------

/// The first row of that name decides what is shown under it.
pub proof fn a_value_is_found_under_its_name(
    rows: Seq<SpaceDetailRowView>,
    key: Seq<char>,
    k: int,
)
    requires
        0 <= k < rows.len(),
        rows[k].key == key,
        forall|j: int| 0 <= j < k ==> (#[trigger] rows[j]).key != key,
    ensures
        value_of(rows, key) == rows[k].value,
    decreases rows.len(),
{
    if k > 0 {
        assert(rows[0].key != key);
        let rest = rows.skip(1);
        assert(rest[k - 1] == rows[k]);
        assert forall|j: int| 0 <= j < k - 1 implies (#[trigger] rest[j]).key != key by {
            assert(rows[j + 1].key != key);
        }
        a_value_is_found_under_its_name(rest, key, k - 1);
    }
}

/// A value that carries what was ordered before what is there is parted at its separator: what is
/// there is the value of the card, what was ordered its note. Without a separator it has no note.
pub proof fn a_card_parts_a_value_from_its_note(
    note: Seq<char>,
    separator: Seq<char>,
    value: Seq<char>,
    rows: Seq<SpaceDetailRowView>,
)
    requires
        separator.len() > 0,
        forall|i: int| 0 <= i < note.len() ==> !occurs_at(note + separator + value, separator, i),
    ensures
        parted(note + separator + value, separator) == (value, note),
        card_words(rows).len() == 3,
        card_words(rows)[0] == parted(value_of(rows, "Память"@), " · фактически "@),
        card_words(rows)[1] == parted(value_of(rows, "Том данных"@), " · файл "@),
        card_words(rows)[2] == (value_of(rows, "Время работы"@), "С момента запуска"@),
{
    let raw = note + separator + value;
    assert(raw.subrange(note.len() as int, (note.len() + separator.len()) as int) =~= separator);
    lemma_pos_from(raw, separator, 0, note.len() as int);
    assert(raw.skip((note.len() + separator.len()) as int) =~= value);
    assert(raw.take(note.len() as int) =~= note);
}

proof fn lemma_pos_from(s: Seq<char>, part: Seq<char>, from: int, at: int)
    requires
        0 <= from <= at,
        occurs_at(s, part, at),
        forall|i: int| from <= i < at ==> !occurs_at(s, part, i),
    ensures
        pos_from(s, part, from) == Some(at),
    decreases at - from,
{
    if from < at {
        lemma_pos_from(s, part, from + 1, at);
    }
}

/// A row is shown as it came, but for the state, which is put into a word.
pub proof fn a_row_is_shown_as_it_came(row: SpaceDetailRowView)
    ensures
        row.key != "Состояние"@ ==> shown_value(row) == row.value,
        row.key == "Состояние"@ ==> shown_value(row) == state_words(row.value),
{
}

/// In print a description has a line for each of its rows and for each line of its log, and the
/// network one for each of its rows, one for the note on its rules if there is one, and one for
/// each line of them. What is not to be had is said.
pub proof fn print_leaves_nothing_out(
    rows: Seq<SpaceDetailRowView>,
    log: Seq<Seq<char>>,
    facts: NetFacts,
    message: Seq<char>,
    k: int,
)
    ensures
        detail_words(Ok((rows, log))).len() == rows.len() + log.len(),
        0 <= k < rows.len() ==> detail_words(Ok((rows, log)))[k] == "  "@ + rows[k].key + ": "@
            + rows[k].value,
        0 <= k < log.len() ==> detail_words(Ok((rows, log)))[rows.len() + k] == "  журнал| "@
            + log[k],
        detail_words(Err(message)) == seq!["  ДЕТАЛИ НЕДОСТУПНЫ: "@ + message],
        net_words(Err(message)) == seq!["СЕТЬ НЕДОСТУПНА: "@ + message],
        0 <= k < facts.rows.len() ==> net_words(Ok(facts))[k] == "СЕТЬ "@ + facts.rows[k].0 + ": "@
            + facts.rows[k].1,
        facts.ruleset_note.len() > 0 ==> {
            let all = net_words(Ok(facts));
            let from = facts.rows.len() + 1;
            &&& all.len() == from + lines(facts.ruleset_text).len()
            &&& all[facts.rows.len() as int] == "СЕТЬ ruleset: "@ + facts.ruleset_note
            &&& 0 <= k < lines(facts.ruleset_text).len() ==> all[from + k] == "  nft| "@ + lines(
                facts.ruleset_text,
            )[k]
        },
        facts.ruleset_note.len() == 0 ==> {
            let all = net_words(Ok(facts));
            let from = facts.rows.len();
            &&& all.len() == from + lines(facts.ruleset_text).len()
            &&& 0 <= k < lines(facts.ruleset_text).len() ==> all[from + k] == "  nft| "@ + lines(
                facts.ruleset_text,
            )[k]
        },
{
}

/// A flag at the end of the command line of the manager sets what it names, and leaves the rest as
/// it is.
pub proof fn a_manager_flag_sets_what_it_names(
    args: Seq<Seq<char>>,
    value: Seq<char>,
    c: ManagerView,
)
    requires
        manager_of(args, c) is Ok,
    ensures
        manager_of(args + seq!["--socket"@, value], c) == Ok::<ManagerView, Seq<char>>(
            ManagerView { socket: value, ..manager_of(args, c)->Ok_0 },
        ),
        manager_of(args + seq!["--dry-run"@], c) == Ok::<ManagerView, Seq<char>>(
            ManagerView { dry_run: true, ..manager_of(args, c)->Ok_0 },
        ),
        manager_of(args + seq!["--socket"@], c) is Err,
    decreases args.len(),
{
    reveal_strlit("--socket");
    reveal_strlit("--dry-run");
    assert("--socket"@.len() == 8 && "--dry-run"@.len() == 9);
    let one = args + seq!["--socket"@, value];
    let two = args + seq!["--dry-run"@];
    let three = args + seq!["--socket"@];
    if args.len() == 0 {
        assert(one[0] == "--socket"@ && one[1] == value && one.skip(2) =~= seq![]);
        assert(two[0] == "--dry-run"@ && two.skip(1) =~= seq![]);
        assert(three[0] == "--socket"@ && three.len() == 1);
        reveal_with_fuel(manager_of, 2);
    } else {
        assert(one[0] == args[0] && two[0] == args[0] && three[0] == args[0]);
        if args[0] == "--dry-run"@ {
            assert(one.skip(1) =~= args.skip(1) + seq!["--socket"@, value]);
            assert(two.skip(1) =~= args.skip(1) + seq!["--dry-run"@]);
            assert(three.skip(1) =~= args.skip(1) + seq!["--socket"@]);
            a_manager_flag_sets_what_it_names(
                args.skip(1),
                value,
                ManagerView { dry_run: true, ..c },
            );
        } else {
            assert(one[1] == args[1] && two[1] == args[1] && three[1] == args[1]);
            assert(one.skip(2) =~= args.skip(2) + seq!["--socket"@, value]);
            assert(two.skip(2) =~= args.skip(2) + seq!["--dry-run"@]);
            assert(three.skip(2) =~= args.skip(2) + seq!["--socket"@]);
            a_manager_flag_sets_what_it_names(
                args.skip(2),
                value,
                ManagerView { socket: args[1], ..c },
            );
        }
    }
}

/// A read is waited for less long than an operation: a description the shortest, the list the
/// longest of them.
pub proof fn a_read_is_not_waited_for_as_long(op: Seq<char>)
    requires
        op != "describe"@,
        op != "profiles"@,
        op != "net-status"@,
        op != "list"@,
    ensures
        timeout_of(op) == 120,
        timeout_of("describe"@) < timeout_of("profiles"@),
        timeout_of("profiles"@) == timeout_of("net-status"@),
        timeout_of("net-status"@) < timeout_of("list"@),
        timeout_of("list"@) < timeout_of(op),
        timeout_of("describe"@) == 8 && timeout_of("profiles"@) == 10 && timeout_of("list"@) == 60,
{
    reveal_strlit("describe");
    reveal_strlit("profiles");
    reveal_strlit("net-status");
    reveal_strlit("list");
    assert("describe"@[0] == 'd' && "profiles"@[0] == 'p');
    assert("describe"@.len() == 8 && "net-status"@.len() == 10 && "list"@.len() == 4);
    assert("profiles"@.len() == 8);
}

} // verus!
