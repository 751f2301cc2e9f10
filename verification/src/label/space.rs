//! Which space a window belongs to: what the host says of its process, and what its title claims.
use crate::text::{
    char_pos, char_texts, chars_find, chars_lines, chars_of, chars_split, chars_strip_prefix,
    chars_strip_suffix, first_pos, head_to, lemma_char_pos, lemma_char_pos_unique, lines, occurs_at,
    opt_text, pos_from, split, string_of, strip_prefix, strip_suffix,
};
use vstd::prelude::*;

verus! {

/// The space that the scope of a control group belongs to.
pub open spec fn scope_space(scope: Seq<char>) -> Option<Seq<char>> {
    match strip_prefix(scope, "miyori-gui-"@) {
        None => None,
        Some(rest) => match strip_suffix(rest, ".scope"@) {
            Some(id) => if id.len() > 0 {
                Some(id)
            } else {
                None
            },
            None => None,
        },
    }
}

/// The space that a line of a control group names: its last component counts.
pub open spec fn line_space(line: Seq<char>) -> Option<Seq<char>> {
    scope_space(split(line, '/').last())
}

/// The first space among lines.
pub open spec fn first_space(all: Seq<Seq<char>>) -> Option<Seq<char>>
    decreases all.len(),
{
    if all.len() == 0 {
        None
    } else {
        match line_space(all[0]) {
            Some(id) => Some(id),
            None => first_space(all.skip(1)),
        }
    }
}

pub proof fn lemma_split_nonempty(s: Seq<char>, sep: char)
    ensures
        split(s, sep).len() > 0,
{
}

fn space_of_line(line: &Vec<char>) -> (r: Option<String>)
    ensures
        opt_text(r) == line_space(line@),
{
    let parts = chars_split(line, '/');
    proof {
        lemma_split_nonempty(line@, '/');
    }
    let scope = &parts[parts.len() - 1];
    assert(scope@ == split(line@, '/').last());
    let rest = chars_strip_prefix(scope, "miyori-gui-")?;
    let id = chars_strip_suffix(&rest, ".scope")?;
    if id.len() > 0 {
        Some(string_of(&id))
    } else {
        None
    }
}

/// The space that a control group belongs to. It may have several lines.
pub fn space_from_cgroup(cgroup: &str) -> (r: Option<String>)
    ensures
        opt_text(r) == first_space(lines(cgroup@)),
{
    let all = chars_lines(&chars_of(cgroup));
    let ghost texts = char_texts(all@);
    assert(texts.skip(0) =~= texts);
    for i in 0..all.len()
        invariant
            texts == char_texts(all@),
            texts == lines(cgroup@),
            first_space(texts.skip(i as int)) == first_space(texts),
    {
        assert(texts.skip(i as int)[0] == all@[i as int]@);
        assert(texts.skip(i as int).skip(1) =~= texts.skip(i + 1));
        let id = space_of_line(&all[i]);
        if id.is_some() {
            return id;
        }
    }
    assert(texts.skip(all@.len() as int) =~= seq![]);
    None
}

/// The space that a title claims.
pub open spec fn title_space(title: Seq<char>) -> Option<Seq<char>> {
    match strip_prefix(title, "[space:"@) {
        None => None,
        Some(rest) => match first_pos(rest, "] "@) {
            Some(n) => if n > 0 {
                Some(rest.take(n))
            } else {
                None
            },
            None => None,
        },
    }
}

/// The space that a title claims: what stands between the prefix and the first end of it. What
/// the guest adds comes after that.
pub fn space_from_title(title: &str) -> (r: Option<String>)
    ensures
        opt_text(r) == title_space(title@),
{
    let rest = chars_strip_prefix(&chars_of(title), "[space:")?;
    let n: usize = chars_find(&rest, "] ")?;
    if n > 0 {
        Some(string_of(&head_to(&rest, n)))
    } else {
        None
    }
}

/// What the host says of a process. That it is in no space, and that nothing could be read, are
/// two answers: after the first the title is not asked.
#[derive(Debug, Clone, PartialEq, Eq)]
pub enum CgroupSpace {
    Space(String),
    NotASpace,
    Unreadable,
}

pub enum CgroupView {
    Space(Seq<char>),
    NotASpace,
    Unreadable,
}

impl View for CgroupSpace {
    type V = CgroupView;

    open spec fn view(&self) -> CgroupView {
        match *self {
            CgroupSpace::Space(id) => CgroupView::Space(id@),
            CgroupSpace::NotASpace => CgroupView::NotASpace,
            CgroupSpace::Unreadable => CgroupView::Unreadable,
        }
    }
}

/// What the control group of a process says, if it could be read.
pub open spec fn cgroup_answer(cgroup: Option<Seq<char>>) -> CgroupView {
    match cgroup {
        None => CgroupView::Unreadable,
        Some(text) => match first_space(lines(text)) {
            Some(id) => CgroupView::Space(id),
            None => CgroupView::NotASpace,
        },
    }
}

/// What the control group of a process says. `cgroup` is what was read of it.
pub fn space_of_pid(cgroup: &Option<String>) -> (r: CgroupSpace)
    ensures
        r@ == cgroup_answer(opt_text(*cgroup)),
{
    match cgroup {
        None => CgroupSpace::Unreadable,
        Some(text) => match space_from_cgroup(text.as_str()) {
            Some(id) => CgroupSpace::Space(id),
            None => CgroupSpace::NotASpace,
        },
    }
}

proof fn lemma_split_last(before: Seq<char>, name: Seq<char>, sep: char)
    requires
        !name.contains(sep),
    ensures
        split(before + seq![sep] + name, sep).last() == name,
    decreases before.len(),
{
    let all = before + seq![sep] + name;
    lemma_char_pos(before, sep);
    let i = char_pos(before, sep);
    if 0 <= i < before.len() {
        assert forall|k: int| 0 <= k < i implies #[trigger] all[k] != sep by {
            assert(before[k] != sep);
        }
        assert(all[i] == before[i]);
        lemma_char_pos_unique(all, sep, i);
        let rest = before.skip(i + 1);
        assert(all.skip(i + 1) =~= rest + seq![sep] + name);
        lemma_split_last(rest, name, sep);
        lemma_split_nonempty(all.skip(i + 1), sep);
        assert(split(all, sep) == seq![all.take(i)] + split(all.skip(i + 1), sep));
    } else {
        let n = before.len() as int;
        assert forall|k: int| 0 <= k < n implies #[trigger] all[k] != sep by {
            assert(before[k] != sep);
        }
        assert(all[n] == sep);
        lemma_char_pos_unique(all, sep, n);
        assert(all.skip(n + 1) =~= name);
        lemma_char_pos(name, sep);
        assert(split(name, sep) =~= seq![name]) by {
            let k = char_pos(name, sep);
            if 0 <= k < name.len() {
                assert(name[k] == sep);
            }
        }
        assert(split(all, sep) == seq![all.take(n)] + split(all.skip(n + 1), sep));
    }
}

/// The scope in which the host runs the windows of a space names it, whatever it is called and
/// wherever the scope lies; a scope without a name names none.
pub proof fn a_scope_names_its_space(before: Seq<char>, id: Seq<char>)
    requires
        !id.contains('/'),
    ensures
        id.len() > 0 ==> line_space(before + "/miyori-gui-"@ + id + ".scope"@) == Some(id),
        id.len() == 0 ==> line_space(before + "/miyori-gui-"@ + id + ".scope"@) is None,
{
    reveal_strlit("/miyori-gui-");
    reveal_strlit("miyori-gui-");
    reveal_strlit(".scope");
    let head = "miyori-gui-"@;
    let tail = ".scope"@;
    let name = head + id + tail;
    assert("/miyori-gui-"@ =~= seq!['/'] + head);
    assert(before + "/miyori-gui-"@ + id + tail =~= before + seq!['/'] + name);
    assert(!name.contains('/')) by {
        assert forall|k: int| 0 <= k < name.len() implies name[k] != '/' by {
            if k >= head.len() && k < head.len() + id.len() {
                assert(name[k] == id[k - head.len()]);
                assert(id.contains(id[k - head.len()]));
            }
        }
    }
    lemma_split_last(before, name, '/');
    assert(name.subrange(0, head.len() as int) =~= head);
    let rest = name.skip(head.len() as int);
    assert(rest =~= id + tail);
    assert(rest.subrange(id.len() as int, rest.len() as int) =~= tail);
    assert(rest.take(id.len() as int) =~= id);
}

/// A title claims the space between its prefix and the first end of it; what the guest adds behind
/// that claims nothing more.
pub proof fn a_title_claims_what_stands_first(id: Seq<char>, rest: Seq<char>)
    requires
        forall|i: int| 0 <= i < id.len() ==> !occurs_at(id + "] "@ + rest, "] "@, i),
    ensures
        id.len() > 0 ==> title_space("[space:"@ + id + "] "@ + rest) == Some(id),
        id.len() == 0 ==> title_space("[space:"@ + id + "] "@ + rest) is None,
{
    let title = "[space:"@ + id + "] "@ + rest;
    let body = id + "] "@ + rest;
    let prefix = "[space:"@;
    assert(title.subrange(0, prefix.len() as int) =~= prefix);
    assert(title.skip(prefix.len() as int) =~= body);
    assert(body.subrange(id.len() as int, (id.len() + "] "@.len()) as int) =~= "] "@);
    lemma_first_pos(body, "] "@, 0, id.len() as int);
    assert(body.take(id.len() as int) =~= id);
}

proof fn lemma_first_pos(s: Seq<char>, part: Seq<char>, from: int, at: int)
    requires
        0 <= from <= at,
        occurs_at(s, part, at),
        forall|i: int| from <= i < at ==> !occurs_at(s, part, i),
    ensures
        pos_from(s, part, from) == Some(at),
    decreases at - from,
{
    if from < at {
        lemma_first_pos(s, part, from + 1, at);
    }
}

} // verus!
