//! Lookups in the texts of `/etc/group` and `/etc/passwd`.
use crate::bytes::{quote, quoted};
use crate::text::{
    char_texts, chars_equal, chars_lines, chars_of, chars_split, chars_to_u64, dec, lines,
    number_fault, parse_dec, split, string_of, u32_to_string, why_no_number,
};
use vstd::prelude::*;

verus! {

/// What a line with the given name says of the group: its number, or the words for a line that
/// does not hold one.
pub open spec fn gid_in_line(path: Seq<char>, name: Seq<char>, line: Seq<char>) -> Result<
    nat,
    Seq<char>,
> {
    let fields = split(line, ':');
    if fields.len() <= 2 {
        Err("некорректная строка группы "@ + quoted(line) + " в "@ + path)
    } else {
        match parse_dec(fields[2], u32::MAX as nat) {
            Some(gid) => Ok(gid),
            None => Err(
                "gid "@ + quoted(fields[2]) + " группы "@ + quoted(name)
                    + " не является числом: "@ + number_fault(fields[2], u32::MAX as nat),
            ),
        }
    }
}

/// The number of a group: the first line that starts with its name decides.
pub open spec fn group_gid(path: Seq<char>, name: Seq<char>, rows: Seq<Seq<char>>) -> Result<
    nat,
    Seq<char>,
>
    decreases rows.len(),
{
    if rows.len() == 0 {
        Err(
            "группа "@ + quoted(name) + " не найдена в "@ + path
                + "; заведите её перед установкой демона: groupadd --system "@ + name,
        )
    } else if split(rows[0], ':').len() > 0 && split(rows[0], ':')[0] == name {
        gid_in_line(path, name, rows[0])
    } else {
        group_gid(path, name, rows.skip(1))
    }
}

/// The same answer, in numbers and strings.
pub open spec fn same_gid(r: Result<u32, String>, s: Result<nat, Seq<char>>) -> bool {
    match (r, s) {
        (Ok(a), Ok(b)) => a as nat == b,
        (Err(a), Err(b)) => a@ == b,
        _ => false,
    }
}

fn gid_from_line(path: &str, name: &str, line: &Vec<char>) -> (r: Result<u32, String>)
    ensures
        same_gid(r, gid_in_line(path@, name@, line@)),
{
    let fields = chars_split(line, ':');
    assert(char_texts(fields@).len() == fields@.len());
    if fields.len() <= 2 {
        let line = string_of(line);
        return Err(
            "некорректная строка группы ".to_owned().concat(quote(line.as_str()).as_str()).concat(
                " в ",
            ).concat(path),
        );
    }
    assert(char_texts(fields@)[2] == fields@[2]@);
    match chars_to_u64(&fields[2], u32::MAX as u64) {
        Some(gid) => Ok(gid as u32),
        None => {
            let field = string_of(&fields[2]);
            Err(
                "gid ".to_owned().concat(quote(field.as_str()).as_str()).concat(
                    " группы ",
                ).concat(quote(name).as_str()).concat(" не является числом: ").concat(
                    why_no_number(&fields[2], u32::MAX as u64).as_str(),
                ),
            )
        },
    }
}

/// The number of the group `name` in the text `src` of the file at `group_path`.
pub fn lookup_gid(group_path: &str, src: &str, name: &str) -> (r: Result<u32, String>)
    ensures
        same_gid(r, group_gid(group_path@, name@, lines(src@))),
{
    let chars = chars_of(src);
    let rows = chars_lines(&chars);
    let wanted = chars_of(name);
    let ghost all = char_texts(rows@);
    assert(all.skip(0) =~= all);
    for i in 0..rows.len()
        invariant
            all == char_texts(rows@),
            all == lines(src@),
            wanted@ == name@,
            group_gid(group_path@, name@, all.skip(i as int)) == group_gid(
                group_path@,
                name@,
                all,
            ),
    {
        let fields = chars_split(&rows[i], ':');
        assert(char_texts(fields@).len() == fields@.len());
        assert(all.skip(i as int)[0] == rows@[i as int]@);
        if fields.len() > 0 {
            assert(char_texts(fields@)[0] == fields@[0]@);
            if chars_equal(&fields[0], &wanted) {
                return gid_from_line(group_path, name, &rows[i]);
            }
        }
        assert(all.skip(i as int).skip(1) =~= all.skip(i + 1));
    }
    assert(all.skip(rows@.len() as int) =~= seq![]);
    Err(
        "группа ".to_owned().concat(quote(name).as_str()).concat(" не найдена в ").concat(
            group_path,
        ).concat("; заведите её перед установкой демона: groupadd --system ").concat(name),
    )
}

/// What the daemon needs of a user: the primary group and the home directory.
#[derive(Debug)]
pub struct PasswdEntry {
    pub gid: u32,
    pub home: String,
}

/// What a line of the user says of it.
pub open spec fn entry_in_line(path: Seq<char>, uid: u32, line: Seq<char>) -> Result<
    (nat, Seq<char>),
    Seq<char>,
> {
    let fields = split(line, ':');
    let malformed = "некорректная строка пользователя "@ + quoted(line) + " в "@ + path;
    if fields.len() <= 3 {
        Err(malformed)
    } else {
        match parse_dec(fields[3], u32::MAX as nat) {
            None => Err(
                "gid "@ + quoted(fields[3]) + " пользователя uid="@ + dec(uid as nat)
                    + " не является числом: "@ + number_fault(fields[3], u32::MAX as nat),
            ),
            Some(gid) => if fields.len() <= 5 {
                Err(malformed)
            } else {
                Ok((gid, fields[5]))
            },
        }
    }
}

pub open spec fn line_has_uid(line: Seq<char>, uid: u32) -> bool {
    let fields = split(line, ':');
    fields.len() > 2 && fields[2] == dec(uid as nat)
}

/// The entry of a user: the first line with its number decides.
pub open spec fn user_entry(path: Seq<char>, uid: u32, rows: Seq<Seq<char>>) -> Result<
    (nat, Seq<char>),
    Seq<char>,
>
    decreases rows.len(),
{
    if rows.len() == 0 {
        Err(
            "uid "@ + dec(uid as nat) + " не найден в "@ + path
                + "; сборщику неоткуда взять HOME и gid"@,
        )
    } else if line_has_uid(rows[0], uid) {
        entry_in_line(path, uid, rows[0])
    } else {
        user_entry(path, uid, rows.skip(1))
    }
}

pub open spec fn same_entry(
    r: Result<PasswdEntry, String>,
    s: Result<(nat, Seq<char>), Seq<char>>,
) -> bool {
    match (r, s) {
        (Ok(a), Ok(b)) => a.gid as nat == b.0 && a.home@ == b.1,
        (Err(a), Err(b)) => a@ == b,
        _ => false,
    }
}

fn malformed_user(path: &str, line: &Vec<char>) -> (r: String)
    ensures
        r@ == "некорректная строка пользователя "@ + quoted(line@) + " в "@ + path@,
{
    let line = string_of(line);
    "некорректная строка пользователя ".to_owned().concat(quote(line.as_str()).as_str()).concat(
        " в ",
    ).concat(path)
}

fn entry_from_line(path: &str, uid: u32, line: &Vec<char>) -> (r: Result<PasswdEntry, String>)
    ensures
        same_entry(r, entry_in_line(path@, uid, line@)),
{
    let fields = chars_split(line, ':');
    let ghost all = char_texts(fields@);
    assert(all.len() == fields@.len());
    if fields.len() <= 3 {
        return Err(malformed_user(path, line));
    }
    assert(all[3] == fields@[3]@);
    match chars_to_u64(&fields[3], u32::MAX as u64) {
        None => {
            let field = string_of(&fields[3]);
            Err(
                "gid ".to_owned().concat(quote(field.as_str()).as_str()).concat(
                    " пользователя uid=",
                ).concat(u32_to_string(uid).as_str()).concat(" не является числом: ").concat(
                    why_no_number(&fields[3], u32::MAX as u64).as_str(),
                ),
            )
        },
        Some(gid) => {
            if fields.len() <= 5 {
                return Err(malformed_user(path, line));
            }
            assert(all[5] == fields@[5]@);
            let home = string_of(&fields[5]);
            Ok(PasswdEntry { gid: gid as u32, home })
        },
    }
}

fn has_uid(line: &Vec<char>, uid_text: &Vec<char>, uid: u32) -> (r: bool)
    requires
        uid_text@ == dec(uid as nat),
    ensures
        r == line_has_uid(line@, uid),
{
    let fields = chars_split(line, ':');
    assert(char_texts(fields@).len() == fields@.len());
    if fields.len() <= 2 {
        return false;
    }
    assert(char_texts(fields@)[2] == fields@[2]@);
    chars_equal(&fields[2], uid_text)
}

/// The entry of the user `uid` in the text `src` of the file at `passwd_path`.
pub fn lookup_passwd_entry(passwd_path: &str, src: &str, uid: u32) -> (r: Result<
    PasswdEntry,
    String,
>)
    ensures
        same_entry(r, user_entry(passwd_path@, uid, lines(src@))),
{
    let chars = chars_of(src);
    let rows = chars_lines(&chars);
    let uid_text = chars_of(u32_to_string(uid).as_str());
    let ghost all = char_texts(rows@);
    assert(all.skip(0) =~= all);
    for i in 0..rows.len()
        invariant
            all == char_texts(rows@),
            all == lines(src@),
            uid_text@ == dec(uid as nat),
            user_entry(passwd_path@, uid, all.skip(i as int)) == user_entry(passwd_path@, uid, all),
    {
        assert(all.skip(i as int)[0] == rows@[i as int]@);
        if has_uid(&rows[i], &uid_text, uid) {
            return entry_from_line(passwd_path, uid, &rows[i]);
        }
        assert(all.skip(i as int).skip(1) =~= all.skip(i + 1));
    }
    assert(all.skip(rows@.len() as int) =~= seq![]);
    Err(
        "uid ".to_owned().concat(u32_to_string(uid).as_str()).concat(" не найден в ").concat(
            passwd_path,
        ).concat("; сборщику неоткуда взять HOME и gid"),
    )
}

/// No line of the text belongs to the user.
pub open spec fn uid_is_free(src: Seq<char>, uid: u32) -> bool {
    forall|i: int| 0 <= i < lines(src).len() ==> !line_has_uid(#[trigger] lines(src)[i], uid)
}

pub fn uid_free(src: &str, uid: u32) -> (r: bool)
    ensures
        r == uid_is_free(src@, uid),
{
    let chars = chars_of(src);
    let rows = chars_lines(&chars);
    let uid_text = chars_of(u32_to_string(uid).as_str());
    let ghost all = char_texts(rows@);
    for i in 0..rows.len()
        invariant
            all == char_texts(rows@),
            all == lines(src@),
            uid_text@ == dec(uid as nat),
            forall|j: int| 0 <= j < i ==> !line_has_uid(#[trigger] all[j], uid),
    {
        assert(all[i as int] == rows@[i as int]@);
        if has_uid(&rows[i], &uid_text, uid) {
            return false;
        }
    }
    true
}

} // verus!
