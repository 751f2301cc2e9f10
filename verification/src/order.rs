//! Stable sorting.
use vstd::prelude::*;

verus! {

/// `x` put behind the last element that does not come after it.
pub open spec fn insert_by<T>(s: Seq<T>, x: T, leq: spec_fn(T, T) -> bool) -> Seq<T>
    decreases s.len(),
{
    if s.len() == 0 || leq(s.last(), x) {
        s.push(x)
    } else {
        insert_by(s.drop_last(), x, leq).push(s.last())
    }
}

/// The elements of `s` in order; equal ones stay in the order in which they came.
pub open spec fn sort_by<T>(s: Seq<T>, leq: spec_fn(T, T) -> bool) -> Seq<T>
    decreases s.len(),
{
    if s.len() == 0 {
        s
    } else {
        insert_by(sort_by(s.drop_last(), leq), s.last(), leq)
    }
}

pub open spec fn is_sorted<T>(s: Seq<T>, leq: spec_fn(T, T) -> bool) -> bool {
    forall|i: int, j: int| 0 <= i <= j < s.len() ==> #[trigger] leq(s[i], s[j])
}

pub open spec fn is_order<T>(leq: spec_fn(T, T) -> bool) -> bool {
    &&& forall|a: T, b: T| #[trigger] leq(a, b) || leq(b, a)
    &&& forall|a: T, b: T, c: T| #[trigger] leq(a, b) && #[trigger] leq(b, c) ==> leq(a, c)
}

/// Where `insert_by` puts an element.
pub proof fn lemma_insert_at<T>(s: Seq<T>, x: T, leq: spec_fn(T, T) -> bool, pos: int)
    requires
        0 <= pos <= s.len(),
        pos > 0 ==> leq(s[pos - 1], x),
        forall|j: int| pos <= j < s.len() ==> !leq(#[trigger] s[j], x),
    ensures
        insert_by(s, x, leq) == s.insert(pos, x),
    decreases s.len(),
{
    if s.len() > pos {
        assert(!leq(s[s.len() - 1], x));
        lemma_insert_at(s.drop_last(), x, leq, pos);
        assert(s.drop_last().insert(pos, x).push(s.last()) =~= s.insert(pos, x));
    } else {
        assert(s.push(x) =~= s.insert(pos, x));
    }
}

pub proof fn lemma_insert_by_multiset<T>(s: Seq<T>, x: T, leq: spec_fn(T, T) -> bool)
    ensures
        insert_by(s, x, leq).to_multiset() == s.to_multiset().insert(x),
        insert_by(s, x, leq).len() == s.len() + 1,
    decreases s.len(),
{
    s.to_multiset_ensures();
    if s.len() == 0 || leq(s.last(), x) {
    } else {
        let rest = insert_by(s.drop_last(), x, leq);
        lemma_insert_by_multiset(s.drop_last(), x, leq);
        rest.to_multiset_ensures();
        s.drop_last().to_multiset_ensures();
        assert(s.drop_last().push(s.last()) =~= s);
        assert(rest.push(s.last()).to_multiset() =~= s.to_multiset().insert(x));
    }
}

/// Sorting keeps every element, as often as it occurred.
pub proof fn lemma_sort_by_multiset<T>(s: Seq<T>, leq: spec_fn(T, T) -> bool)
    ensures
        sort_by(s, leq).to_multiset() == s.to_multiset(),
        sort_by(s, leq).len() == s.len(),
    decreases s.len(),
{
    if s.len() > 0 {
        lemma_sort_by_multiset(s.drop_last(), leq);
        lemma_insert_by_multiset(sort_by(s.drop_last(), leq), s.last(), leq);
        s.drop_last().to_multiset_ensures();
        assert(s.drop_last().push(s.last()) =~= s);
    }
}

pub proof fn lemma_insert_by_contains<T>(s: Seq<T>, x: T, leq: spec_fn(T, T) -> bool, y: T)
    ensures
        insert_by(s, x, leq).contains(y) <==> s.contains(y) || y == x,
{
    lemma_insert_by_multiset(s, x, leq);
    s.to_multiset_ensures();
    insert_by(s, x, leq).to_multiset_ensures();
    assert(insert_by(s, x, leq).contains(y) <==> insert_by(s, x, leq).to_multiset().count(y) > 0);
}

pub proof fn lemma_sort_by_contains<T>(s: Seq<T>, leq: spec_fn(T, T) -> bool, y: T)
    ensures
        sort_by(s, leq).contains(y) <==> s.contains(y),
{
    lemma_sort_by_multiset(s, leq);
    s.to_multiset_ensures();
    sort_by(s, leq).to_multiset_ensures();
    assert(s.contains(y) <==> s.to_multiset().count(y) > 0);
    assert(sort_by(s, leq).contains(y) <==> sort_by(s, leq).to_multiset().count(y) > 0);
}

pub proof fn lemma_insert_by_sorted<T>(s: Seq<T>, x: T, leq: spec_fn(T, T) -> bool)
    requires
        is_order(leq),
        is_sorted(s, leq),
    ensures
        is_sorted(insert_by(s, x, leq), leq),
    decreases s.len(),
{
    let r = insert_by(s, x, leq);
    if s.len() == 0 || leq(s.last(), x) {
        assert forall|i: int, j: int| 0 <= i <= j < r.len() implies #[trigger] leq(r[i], r[j]) by {
            if j == s.len() && i < j {
                assert(leq(s[i], s[s.len() - 1]));
                assert(leq(s.last(), x));
            } else if i == j {
                assert(leq(r[i], r[i]));
            } else {
                assert(leq(s[i], s[j]));
            }
        }
    } else {
        let front = insert_by(s.drop_last(), x, leq);
        assert forall|i: int, j: int|
            0 <= i <= j < s.drop_last().len() implies #[trigger] leq(
            s.drop_last()[i],
            s.drop_last()[j],
        ) by {
            assert(leq(s[i], s[j]));
        }
        lemma_insert_by_sorted(s.drop_last(), x, leq);
        lemma_insert_by_multiset(s.drop_last(), x, leq);
        assert forall|i: int, j: int| 0 <= i <= j < r.len() implies #[trigger] leq(r[i], r[j]) by {
            if j == front.len() && i < j {
                lemma_insert_by_contains(s.drop_last(), x, leq, front[i]);
                assert(front.contains(front[i]));
                if front[i] != x {
                    let k = choose|k: int|
                        0 <= k < s.drop_last().len() && s.drop_last()[k] == front[i];
                    assert(leq(s[k], s[s.len() - 1]));
                } else {
                    assert(leq(s.last(), x) || leq(x, s.last()));
                }
            } else if i == j {
                assert(leq(r[i], r[i]));
            } else {
                assert(leq(front[i], front[j]));
            }
        }
    }
}

/// Sorting leaves the elements in order.
pub proof fn lemma_sort_by_sorted<T>(s: Seq<T>, leq: spec_fn(T, T) -> bool)
    requires
        is_order(leq),
    ensures
        is_sorted(sort_by(s, leq), leq),
    decreases s.len(),
{
    if s.len() > 0 {
        lemma_sort_by_sorted(s.drop_last(), leq);
        lemma_insert_by_sorted(sort_by(s.drop_last(), leq), s.last(), leq);
    }
}

/// What is in order is left as it is.
pub proof fn lemma_sort_by_of_sorted<T>(s: Seq<T>, leq: spec_fn(T, T) -> bool)
    requires
        is_sorted(s, leq),
    ensures
        sort_by(s, leq) == s,
    decreases s.len(),
{
    if s.len() > 0 {
        let front = s.drop_last();
        assert forall|i: int, j: int| 0 <= i <= j < front.len() implies #[trigger] leq(
            front[i],
            front[j],
        ) by {
            assert(leq(s[i], s[j]));
        }
        lemma_sort_by_of_sorted(front, leq);
        if front.len() > 0 {
            assert(leq(s[s.len() - 2], s[s.len() - 1]));
        }
        assert(front.push(s.last()) =~= s);
    }
}

/// No two elements of `s` stand at the same place of the order.
pub open spec fn is_strict<T>(s: Seq<T>, leq: spec_fn(T, T) -> bool) -> bool {
    forall|i: int, j: int|
        0 <= i < j < s.len() ==> !(#[trigger] leq(s[i], s[j]) && leq(s[j], s[i]))
}

/// Two rows in order, without two elements at one place, that hold the same elements are the
/// same.
pub proof fn lemma_sorted_unique<T>(a: Seq<T>, b: Seq<T>, leq: spec_fn(T, T) -> bool)
    requires
        is_order(leq),
        is_sorted(a, leq),
        is_sorted(b, leq),
        is_strict(a, leq),
        a.to_multiset() == b.to_multiset(),
    ensures
        a == b,
    decreases a.len(),
{
    a.to_multiset_ensures();
    b.to_multiset_ensures();
    assert(a.len() == b.len());
    if a.len() == 0 {
        assert(a =~= b);
    } else {
        let x = a.last();
        let y = b.last();
        assert(a.contains(x)) by {
            assert(a[a.len() - 1] == x);
        }
        assert(b.contains(y)) by {
            assert(b[b.len() - 1] == y);
        }
        assert(a.to_multiset().count(x) > 0 && b.to_multiset().count(y) > 0);
        assert(b.contains(x) <==> b.to_multiset().count(x) > 0);
        assert(a.contains(y) <==> a.to_multiset().count(y) > 0);
        let i = choose|i: int| 0 <= i < b.len() && b[i] == x;
        let j = choose|j: int| 0 <= j < a.len() && a[j] == y;
        assert(leq(b[i], b[b.len() - 1]));
        assert(leq(a[j], a[a.len() - 1]));
        if j < a.len() - 1 {
            assert(!(leq(a[j], a[a.len() - 1]) && leq(a[a.len() - 1], a[j])));
        }
        assert(x == y);
        let c = a.drop_last();
        let d = b.drop_last();
        assert(c.push(x) =~= a);
        assert(d.push(y) =~= b);
        c.to_multiset_ensures();
        d.to_multiset_ensures();
        assert(c.to_multiset() =~= d.to_multiset()) by {
            assert(c.to_multiset() =~= a.to_multiset().remove(x));
            assert(d.to_multiset() =~= b.to_multiset().remove(y));
        }
        assert forall|i: int, j: int| 0 <= i <= j < c.len() implies #[trigger] leq(c[i], c[j]) by {
            assert(leq(a[i], a[j]));
        }
        assert forall|i: int, j: int| 0 <= i <= j < d.len() implies #[trigger] leq(d[i], d[j]) by {
            assert(leq(b[i], b[j]));
        }
        assert forall|i: int, j: int| 0 <= i < j < c.len() implies !(#[trigger] leq(c[i], c[j])
            && leq(c[j], c[i])) by {
            assert(!(leq(a[i], a[j]) && leq(a[j], a[i])));
        }
        lemma_sorted_unique(c, d, leq);
    }
}

/// The order in which elements come to be sorted makes no difference, as long as no two of them
/// stand at the same place of the order.
pub proof fn lemma_sort_by_any_order<T>(a: Seq<T>, b: Seq<T>, leq: spec_fn(T, T) -> bool)
    requires
        is_order(leq),
        a.to_multiset() == b.to_multiset(),
        is_strict(sort_by(a, leq), leq),
    ensures
        sort_by(a, leq) == sort_by(b, leq),
{
    lemma_sort_by_sorted(a, leq);
    lemma_sort_by_sorted(b, leq);
    lemma_sort_by_multiset(a, leq);
    lemma_sort_by_multiset(b, leq);
    lemma_sorted_unique(sort_by(a, leq), sort_by(b, leq), leq);
}

/// The order of texts by their characters.
pub open spec fn text_le(a: Seq<char>, b: Seq<char>) -> bool
    decreases a.len(),
{
    if a.len() == 0 {
        true
    } else if b.len() == 0 {
        false
    } else if a[0] == b[0] {
        text_le(a.skip(1), b.skip(1))
    } else {
        a[0] < b[0]
    }
}

pub proof fn lemma_text_le_total(a: Seq<char>, b: Seq<char>)
    ensures
        text_le(a, b) || text_le(b, a),
        text_le(a, b) && text_le(b, a) ==> a == b,
    decreases a.len(),
{
    if a.len() == 0 || b.len() == 0 {
        if text_le(a, b) && text_le(b, a) {
            assert(a =~= b);
        }
    } else if a[0] == b[0] {
        lemma_text_le_total(a.skip(1), b.skip(1));
        if text_le(a, b) && text_le(b, a) {
            assert(a =~= seq![a[0]] + a.skip(1));
            assert(b =~= seq![b[0]] + b.skip(1));
        }
    }
}

pub proof fn lemma_text_le_transitive(a: Seq<char>, b: Seq<char>, c: Seq<char>)
    requires
        text_le(a, b),
        text_le(b, c),
    ensures
        text_le(a, c),
    decreases a.len(),
{
    if a.len() > 0 && b.len() > 0 && c.len() > 0 && a[0] == b[0] && b[0] == c[0] {
        lemma_text_le_transitive(a.skip(1), b.skip(1), c.skip(1));
    }
}

/// Whether one text comes no later than another.
pub fn chars_le(a: &Vec<char>, b: &Vec<char>) -> (r: bool)
    ensures
        r == text_le(a@, b@),
{
    let mut i: usize = 0;
    assert(a@.skip(0) =~= a@);
    assert(b@.skip(0) =~= b@);
    while i < a.len() && i < b.len() && a[i] == b[i]
        invariant
            i <= a@.len(),
            i <= b@.len(),
            text_le(a@.skip(i as int), b@.skip(i as int)) == text_le(a@, b@),
        decreases a@.len() - i,
    {
        assert(a@.skip(i as int).skip(1) =~= a@.skip(i + 1));
        assert(b@.skip(i as int).skip(1) =~= b@.skip(i + 1));
        i = i + 1;
    }
    let ghost at = a@.skip(i as int);
    let ghost bt = b@.skip(i as int);
    if i == a.len() {
        assert(at.len() == 0);
        true
    } else if i == b.len() {
        assert(bt.len() == 0);
        false
    } else {
        assert(at[0] == a@[i as int] && bt[0] == b@[i as int]);
        a[i] < b[i]
    }
}

pub fn str_le(a: &str, b: &str) -> (r: bool)
    ensures
        r == text_le(a@, b@),
{
    let a = crate::text::chars_of(a);
    let b = crate::text::chars_of(b);
    chars_le(&a, &b)
}

/// Texts in order.
pub fn sort_strings(items: Vec<String>) -> (r: Vec<String>)
    ensures
        r@ == sort_by(items@, |a: String, b: String| text_le(a@, b@)),
{
    let ghost leq = |a: String, b: String| text_le(a@, b@);
    let mut out: Vec<String> = Vec::new();
    assert(items@.take(0) =~= seq![]);
    for i in 0..items.len()
        invariant
            leq == (|a: String, b: String| text_le(a@, b@)),
            out@ == sort_by(items@.take(i as int), leq),
    {
        let x = items[i].clone();
        let mut pos: usize = out.len();
        while pos > 0 && !str_le(out[pos - 1].as_str(), x.as_str())
            invariant
                leq == (|a: String, b: String| text_le(a@, b@)),
                pos <= out@.len(),
                forall|j: int| pos <= j < out@.len() ==> !leq(#[trigger] out@[j], x),
            decreases pos,
        {
            pos = pos - 1;
        }
        proof {
            lemma_insert_at(out@, x, leq, pos as int);
            assert(items@.take(i + 1).drop_last() =~= items@.take(i as int));
            assert(items@.take(i + 1).last() == items@[i as int]);
        }
        out.insert(pos, x);
    }
    assert(items@.take(items@.len() as int) =~= items@);
    out
}

} // verus!
