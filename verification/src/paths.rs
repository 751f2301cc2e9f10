//! Paths as texts.
use crate::text::{char_texts, chars_of, chars_split, split, str_equal, string_of};
use vstd::prelude::*;

verus! {

/// `part` appended to `base` as a path: an absolute part stands alone.
pub open spec fn join_path(base: Seq<char>, part: Seq<char>) -> Seq<char> {
    if part.len() > 0 && part[0] == '/' {
        part
    } else if base.len() == 0 || base.last() == '/' {
        base + part
    } else {
        base + "/"@ + part
    }
}

pub open spec fn is_absolute(path: Seq<char>) -> bool {
    path.len() > 0 && path[0] == '/'
}

pub fn path_is_absolute(path: &str) -> (r: bool)
    ensures
        r == is_absolute(path@),
{
    let p = chars_of(path);
    p.len() > 0 && p[0] == '/'
}

pub fn path_join(base: &str, part: &str) -> (r: String)
    ensures
        r@ == join_path(base@, part@),
{
    let b = chars_of(base);
    if path_is_absolute(part) {
        part.to_owned()
    } else if b.len() == 0 || b[b.len() - 1] == '/' {
        base.to_owned().concat(part)
    } else {
        base.to_owned().concat("/").concat(part)
    }
}

/// A piece of a path that names something.
pub open spec fn is_named(piece: Seq<char>) -> bool {
    piece.len() > 0 && piece != "."@
}

/// The last piece that names something.
pub open spec fn last_named(pieces: Seq<Seq<char>>) -> Option<Seq<char>>
    decreases pieces.len(),
{
    if pieces.len() == 0 {
        None
    } else if is_named(pieces.last()) {
        Some(pieces.last())
    } else {
        last_named(pieces.drop_last())
    }
}

/// The name at the end of a path; a path that ends in `..`, or holds no name, has none.
pub open spec fn file_name(path: Seq<char>) -> Option<Seq<char>> {
    match last_named(split(path, '/')) {
        Some(name) => if name == ".."@ {
            None
        } else {
            Some(name)
        },
        None => None,
    }
}

pub fn path_file_name(path: &str) -> (r: Option<String>)
    ensures
        crate::text::opt_text(r) == file_name(path@),
{
    let p = chars_of(path);
    let pieces = chars_split(&p, '/');
    let ghost all = char_texts(pieces@);
    let mut i: usize = pieces.len();
    assert(all.take(i as int) =~= all);
    while i > 0
        invariant
            i <= pieces@.len(),
            all == char_texts(pieces@),
            all == split(path@, '/'),
            last_named(all.take(i as int)) == last_named(all),
        decreases i,
    {
        let piece = string_of(&pieces[i - 1]);
        assert(all.take(i as int).last() == piece@);
        assert(all.take(i as int).drop_last() =~= all.take(i - 1));
        if !piece.as_str().is_empty() && !str_equal(piece.as_str(), ".") {
            if str_equal(piece.as_str(), "..") {
                return None;
            }
            return Some(piece);
        }
        i = i - 1;
    }
    None
}

} // verus!
