//! What the manager prints instead of opening a window, and how it splits what it shows.
use crate::manager::daemon::DEFAULT_SOCKET;
use crate::manager::rules::{state_text, state_words};
use crate::manager::view::{
    detail_row_views, DetailView, NetFacts, NetView, SpaceDetailRow, SpaceDetailRowView, SpaceRow,
    SpaceRowView,
};
use crate::text::{
    char_texts, chars_find, chars_lines, chars_of, first_pos, has_prefix, head_to, lines, push_text,
    str_equal, string_of, tail_from, texts,
};
use vstd::prelude::*;

verus! {

// ---------------------------------------------------------------------------------------------
// The command line
// ---------------------------------------------------------------------------------------------

pub struct ManagerConfig {
    pub socket: String,
    pub dry_run: bool,
}

pub struct ManagerView {
    pub socket: Seq<char>,
    pub dry_run: bool,
}

impl View for ManagerConfig {
    type V = ManagerView;

    open spec fn view(&self) -> ManagerView {
        ManagerView { socket: self.socket@, dry_run: self.dry_run }
    }
}

/// What the arguments say, read from the left.
pub open spec fn manager_of(args: Seq<Seq<char>>, c: ManagerView) -> Result<ManagerView, Seq<char>>
    decreases args.len(),
{
    if args.len() == 0 {
        Ok(c)
    } else if args[0] == "--dry-run"@ {
        manager_of(args.skip(1), ManagerView { dry_run: true, ..c })
    } else if args[0] == "--socket"@ {
        if args.len() == 1 {
            Err("--socket без значения"@)
        } else {
            manager_of(args.skip(2), ManagerView { socket: args[1], ..c })
        }
    } else {
        Err("неизвестный аргумент "@ + args[0])
    }
}

/// Reads the arguments of the manager.
pub fn manager_args(args: &Vec<String>) -> (r: Result<ManagerConfig, String>)
    ensures
        match (
            r,
            manager_of(
                texts(args@),
                ManagerView { socket: DEFAULT_SOCKET@, dry_run: false },
            ),
        ) {
            (Ok(c), Ok(d)) => c@ == d,
            (Err(m), Err(words)) => m@ == words,
            _ => false,
        },
{
    let ghost all = texts(args@);
    let ghost start = ManagerView { socket: DEFAULT_SOCKET@, dry_run: false };
    let mut socket = DEFAULT_SOCKET.to_owned();
    let mut dry_run = false;
    assert(all.skip(0) =~= all);
    let mut i: usize = 0;
    while i < args.len()
        invariant
            i <= args@.len(),
            all == texts(args@),
            start == (ManagerView { socket: DEFAULT_SOCKET@, dry_run: false }),
            manager_of(all.skip(i as int), ManagerView { socket: socket@, dry_run })
                == manager_of(all, start),
        decreases args@.len() - i,
    {
        let arg = args[i].as_str();
        let ghost rest = all.skip(i as int);
        assert(rest[0] == arg@);
        if str_equal(arg, "--dry-run") {
            dry_run = true;
            assert(rest.skip(1) =~= all.skip(i + 1));
            i = i + 1;
        } else if str_equal(arg, "--socket") {
            if i + 1 >= args.len() {
                return Err("--socket без значения".to_owned());
            }
            assert(rest[1] == args@[i + 1]@);
            socket = args[i + 1].clone();
            assert(rest.skip(2) =~= all.skip(i + 2));
            i = i + 2;
        } else {
            return Err("неизвестный аргумент ".to_owned().concat(arg));
        }
    }
    assert(all.skip(i as int) =~= seq![]);
    Ok(ManagerConfig { socket, dry_run })
}

// ---------------------------------------------------------------------------------------------
// Lines
// ---------------------------------------------------------------------------------------------

/// A space in a printed line. The reason of its level is named where there is one.
pub open spec fn space_words(row: SpaceRowView) -> Seq<char> {
    "СПЕЙС "@ + row.id + " · "@ + row.label + " · "@ + row.color + " · профиль "@ + row.profile
        + " · "@ + row.state + " · уровень "@ + row.level + (if row.level_reason.len() == 0 {
        ""@
    } else {
        " — "@ + row.level_reason
    })
}

pub fn space_line(row: &SpaceRow) -> (r: String)
    ensures
        r@ == space_words(row@),
{
    let reason = if chars_of(row.level_reason.as_str()).len() == 0 {
        "".to_owned()
    } else {
        " — ".to_owned().concat(row.level_reason.as_str())
    };
    "СПЕЙС ".to_owned().concat(row.id.as_str()).concat(" · ").concat(row.label.as_str()).concat(
        " · ",
    ).concat(row.color.as_str()).concat(" · профиль ").concat(row.profile.as_str()).concat(
        " · ",
    ).concat(row.state.as_str()).concat(" · уровень ").concat(row.level.as_str()).concat(
        reason.as_str(),
    )
}

/// What is printed in the place of a list that is not to be had.
pub fn no_spaces_line(message: &str) -> (r: String)
    ensures
        r@ == "СПЕЙСЫ НЕДОСТУПНЫ: "@ + message@,
{
    "СПЕЙСЫ НЕДОСТУПНЫ: ".to_owned().concat(message)
}

pub open spec fn detail_words(
    view: Result<(Seq<SpaceDetailRowView>, Seq<Seq<char>>), Seq<char>>,
) -> Seq<Seq<char>> {
    match view {
        Err(message) => seq!["  ДЕТАЛИ НЕДОСТУПНЫ: "@ + message],
        Ok(found) => found.0.map_values(
            |row: SpaceDetailRowView| "  "@ + row.key + ": "@ + row.value,
        ) + found.1.map_values(|line: Seq<char>| "  журнал| "@ + line),
    }
}

/// The description of a space, in printed lines.
pub fn detail_lines(view: &DetailView) -> (r: Vec<String>)
    ensures
        texts(r@) == detail_words(view@),
{
    let mut out: Vec<String> = Vec::new();
    assert(texts(out@) =~= seq![]);
    match view {
        DetailView::Unavailable { message } => {
            push_text(&mut out, "  ДЕТАЛИ НЕДОСТУПНЫ: ".to_owned().concat(message.as_str()).as_str());
            assert(texts(out@) =~= detail_words(view@));
        },
        DetailView::Space { rows, log_tail } => {
            let ghost pairs = detail_row_views(rows@).map_values(
                |row: SpaceDetailRowView| "  "@ + row.key + ": "@ + row.value,
            );
            let ghost logs = texts(log_tail@).map_values(
                |line: Seq<char>| "  журнал| "@ + line,
            );
            assert(texts(out@) =~= pairs.take(0));
            for i in 0..rows.len()
                invariant
                    pairs == detail_row_views(rows@).map_values(
                        |row: SpaceDetailRowView| "  "@ + row.key + ": "@ + row.value,
                    ),
                    texts(out@) == pairs.take(i as int),
            {
                assert(pairs[i as int] == "  "@ + rows@[i as int].key@ + ": "@
                    + rows@[i as int].value@);
                push_text(
                    &mut out,
                    "  ".to_owned().concat(rows[i].key.as_str()).concat(": ").concat(
                        rows[i].value.as_str(),
                    ).as_str(),
                );
                assert(pairs.take(i + 1) =~= pairs.take(i as int).push(pairs[i as int]));
            }
            assert(texts(out@) =~= pairs + logs.take(0));
            for i in 0..log_tail.len()
                invariant
                    logs == texts(log_tail@).map_values(|line: Seq<char>| "  журнал| "@ + line),
                    texts(out@) == pairs + logs.take(i as int),
            {
                push_text(&mut out, "  журнал| ".to_owned().concat(log_tail[i].as_str()).as_str());
                assert(logs[i as int] == "  журнал| "@ + log_tail@[i as int]@);
                assert(texts(out@) =~= pairs + logs.take(i + 1));
            }
            assert(logs.take(log_tail@.len() as int) =~= logs);
            assert(texts(out@) =~= detail_words(view@));
        },
    }
    out
}

pub open spec fn net_words(net: Result<NetFacts, Seq<char>>) -> Seq<Seq<char>> {
    match net {
        Err(message) => seq!["СЕТЬ НЕДОСТУПНА: "@ + message],
        Ok(facts) => facts.rows.map_values(
            |row: (Seq<char>, Seq<char>)| "СЕТЬ "@ + row.0 + ": "@ + row.1,
        ) + (if facts.ruleset_note.len() == 0 {
            seq![]
        } else {
            seq!["СЕТЬ ruleset: "@ + facts.ruleset_note]
        }) + lines(facts.ruleset_text).map_values(|line: Seq<char>| "  nft| "@ + line),
    }
}

/// The network, in printed lines.
pub fn net_lines(net: &Result<NetView, String>) -> (r: Vec<String>)
    ensures
        texts(r@) == net_words(crate::manager::ui::net_facts(*net)),
{
    let mut out: Vec<String> = Vec::new();
    assert(texts(out@) =~= seq![]);
    let view = match net {
        Ok(view) => view,
        Err(message) => {
            push_text(&mut out, "СЕТЬ НЕДОСТУПНА: ".to_owned().concat(message.as_str()).as_str());
            assert(texts(out@) =~= net_words(Err(message@)));
            return out;
        },
    };
    let ghost facts = view@;
    let ghost pairs = facts.rows.map_values(
        |row: (Seq<char>, Seq<char>)| "СЕТЬ "@ + row.0 + ": "@ + row.1,
    );
    assert(texts(out@) =~= pairs.take(0));
    for i in 0..view.rows.len()
        invariant
            facts == view@,
            pairs == facts.rows.map_values(
                |row: (Seq<char>, Seq<char>)| "СЕТЬ "@ + row.0 + ": "@ + row.1,
            ),
            texts(out@) == pairs.take(i as int),
    {
        assert(facts.rows[i as int] == (
            view.rows@[i as int].key@,
            view.rows@[i as int].value@,
        ));
        push_text(
            &mut out,
            "СЕТЬ ".to_owned().concat(view.rows[i].key.as_str()).concat(": ").concat(
                view.rows[i].value.as_str(),
            ).as_str(),
        );
        assert(pairs.take(i + 1) =~= pairs.take(i as int).push(pairs[i as int]));
    }
    assert(pairs.take(view.rows@.len() as int) =~= pairs);
    let ghost note = if facts.ruleset_note.len() == 0 {
        seq![]
    } else {
        seq!["СЕТЬ ruleset: "@ + facts.ruleset_note]
    };
    if chars_of(view.ruleset_note.as_str()).len() > 0 {
        push_text(
            &mut out,
            "СЕТЬ ruleset: ".to_owned().concat(view.ruleset_note.as_str()).as_str(),
        );
    }
    assert(texts(out@) =~= pairs + note);
    let all = chars_lines(&chars_of(view.ruleset_text.as_str()));
    let ghost rules = lines(facts.ruleset_text).map_values(|line: Seq<char>| "  nft| "@ + line);
    assert(texts(out@) =~= pairs + note + rules.take(0));
    for i in 0..all.len()
        invariant
            char_texts(all@) == lines(facts.ruleset_text),
            rules == lines(facts.ruleset_text).map_values(|line: Seq<char>| "  nft| "@ + line),
            texts(out@) == pairs + note + rules.take(i as int),
    {
        let line = string_of(&all[i]);
        assert(line@ == lines(facts.ruleset_text)[i as int]);
        push_text(&mut out, "  nft| ".to_owned().concat(line.as_str()).as_str());
        assert(texts(out@) =~= pairs + note + rules.take(i + 1));
    }
    assert(rules.take(all@.len() as int) =~= rules);
    out
}

// ---------------------------------------------------------------------------------------------
// The cards of a space
// ---------------------------------------------------------------------------------------------

/// The value of the first row with a key.
pub open spec fn value_of(rows: Seq<SpaceDetailRowView>, key: Seq<char>) -> Seq<char>
    decreases rows.len(),
{
    if rows.len() == 0 {
        "—"@
    } else if rows[0].key == key {
        rows[0].value
    } else {
        value_of(rows.skip(1), key)
    }
}

fn find_value(rows: &Vec<SpaceDetailRow>, key: &str) -> (r: String)
    ensures
        r@ == value_of(detail_row_views(rows@), key@),
{
    let ghost all = detail_row_views(rows@);
    assert(all.skip(0) =~= all);
    for i in 0..rows.len()
        invariant
            all == detail_row_views(rows@),
            value_of(all.skip(i as int), key@) == value_of(all, key@),
    {
        assert(all.skip(i as int)[0] == rows@[i as int]@);
        assert(all.skip(i as int).skip(1) =~= all.skip(i + 1));
        if str_equal(rows[i].key.as_str(), key) {
            return rows[i].value.clone();
        }
    }
    assert(all.skip(rows@.len() as int) =~= seq![]);
    "—".to_owned()
}

/// A value and the note under it: what stands behind a separator, and what stands before it.
pub open spec fn parted(raw: Seq<char>, separator: Seq<char>) -> (Seq<char>, Seq<char>) {
    match first_pos(raw, separator) {
        Some(i) => (raw.skip(i + separator.len()), raw.take(i)),
        None => (raw, ""@),
    }
}

fn part(raw: &str, separator: &str) -> (r: (String, String))
    ensures
        (r.0@, r.1@) == parted(raw@, separator@),
{
    let chars = chars_of(raw);
    match chars_find(&chars, separator) {
        Some(i) => {
            let n: usize = chars_of(separator).len();
            let len: usize = chars.len();
            assert(i + n <= len);
            (string_of(&tail_from(&chars, i + n)), string_of(&head_to(&chars, i)))
        },
        None => (raw.to_owned(), "".to_owned()),
    }
}

/// The memory, the volume and the time of a space, each a value and a note.
pub open spec fn card_words(rows: Seq<SpaceDetailRowView>) -> Seq<(Seq<char>, Seq<char>)> {
    seq![
        parted(value_of(rows, "Память"@), " · фактически "@),
        parted(value_of(rows, "Том данных"@), " · файл "@),
        (value_of(rows, "Время работы"@), "С момента запуска"@),
    ]
}

pub fn cards(rows: &Vec<SpaceDetailRow>) -> (r: Vec<(String, String)>)
    ensures
        r@.map_values(|c: (String, String)| (c.0@, c.1@)) == card_words(detail_row_views(rows@)),
{
    let memory = part(find_value(rows, "Память").as_str(), " · фактически ");
    let volume = part(find_value(rows, "Том данных").as_str(), " · файл ");
    let uptime = (find_value(rows, "Время работы"), "С момента запуска".to_owned());
    let r = vec![memory, volume, uptime];
    assert(r@.map_values(|c: (String, String)| (c.0@, c.1@)) =~= card_words(
        detail_row_views(rows@),
    ));
    r
}

/// A row as it is shown: a state is put into words.
pub open spec fn shown_value(row: SpaceDetailRowView) -> Seq<char> {
    if row.key == "Состояние"@ {
        state_words(row.value)
    } else {
        row.value
    }
}

pub fn row_value(row: &SpaceDetailRow) -> (r: String)
    ensures
        r@ == shown_value(row@),
{
    if str_equal(row.key.as_str(), "Состояние") {
        state_text(row.value.as_str())
    } else {
        row.value.clone()
    }
}

/// Whether a row is shown as a warning: a level that is reduced is.
pub fn row_warns(row: &SpaceDetailRow) -> (r: bool)
    ensures
        r == (row@.key == "Уровень изоляции"@ && has_prefix(row@.value, "reduced"@)),
{
    str_equal(row.key.as_str(), "Уровень изоляции") && crate::text::chars_match_at(
        &chars_of(row.value.as_str()),
        &chars_of("reduced"),
        0,
    )
}

} // verus!
