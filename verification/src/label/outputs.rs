//! The strips, one per output.
use vstd::prelude::*;
use vstd::std_specs::cmp::PartialEqSpec;

verus! {

pub struct OutputBars<Id, Bar> {
    pub entries: Vec<(Id, Bar)>,
}

impl<Id, Bar> View for OutputBars<Id, Bar> {
    type V = Seq<(Id, Bar)>;

    open spec fn view(&self) -> Seq<(Id, Bar)> {
        self.entries@
    }
}

/// A closure says yes to a strip.
pub open spec fn says<Bar, F: Fn(&Bar) -> bool>(f: F, bar: Bar, yes: bool) -> bool {
    f.ensures((&bar,), yes)
}

/// The place of the first strip to which a closure says yes.
pub open spec fn first_said<Id, Bar, F: Fn(&Bar) -> bool>(
    entries: Seq<(Id, Bar)>,
    f: F,
    found: Option<int>,
) -> bool {
    match found {
        Some(i) => {
            &&& 0 <= i < entries.len()
            &&& says(f, entries[i].1, true)
            &&& forall|j: int| 0 <= j < i ==> says(f, (#[trigger] entries[j]).1, false)
        },
        None => forall|j: int| 0 <= j < entries.len() ==> says(f, (#[trigger] entries[j]).1, false),
    }
}

impl<Id, Bar> OutputBars<Id, Bar> {
    pub fn new() -> (r: Self)
        ensures
            r@ == Seq::<(Id, Bar)>::empty(),
    {
        OutputBars { entries: Vec::new() }
    }

    pub fn len(&self) -> (r: usize)
        ensures
            r == self@.len(),
    {
        self.entries.len()
    }

    pub fn is_empty(&self) -> (r: bool)
        ensures
            r == (self@.len() == 0),
    {
        self.entries.len() == 0
    }

    /// The strip at a place, to be changed.
    pub fn bar_mut(&mut self, i: usize) -> (r: &mut Bar)
        requires
            i < old(self)@.len(),
        ensures
            *r == old(self)@[i as int].1,
            final(self)@ == old(self)@.update(i as int, (old(self)@[i as int].0, *final(r))),
    {
        &mut self.entries[i].1
    }

    /// The place of the first strip to which a closure says yes.
    pub fn position<F: Fn(&Bar) -> bool>(&self, matches: F) -> (r: Option<usize>)
        requires
            forall|bar: &Bar| #[trigger] matches.requires((bar,)),
        ensures
            first_said(
                self@,
                matches,
                match r {
                    Some(i) => Some(i as int),
                    None => None,
                },
            ),
    {
        for i in 0..self.entries.len()
            invariant
                forall|bar: &Bar| #[trigger] matches.requires((bar,)),
                forall|j: int| 0 <= j < i ==> says(matches, (#[trigger] self.entries@[j]).1, false),
        {
            if matches(&self.entries[i].1) {
                return Some(i);
            }
        }
        None
    }

    /// The first strip to which a closure says yes, to be changed.
    pub fn find_mut<F: Fn(&Bar) -> bool>(&mut self, matches: F) -> (r: Option<&mut Bar>)
        requires
            forall|bar: &Bar| #[trigger] matches.requires((bar,)),
        ensures
            match r {
                Some(bar) => exists|i: int|
                    {
                        &&& #[trigger] first_said(old(self)@, matches, Some(i))
                        &&& *bar == old(self)@[i].1
                        &&& final(self)@ == old(self)@.update(i, (old(self)@[i].0, *final(bar)))
                    },
                None => first_said(old(self)@, matches, None) && final(self)@ == old(self)@,
            },
    {
        match self.position(matches) {
            Some(i) => {
                assert(first_said(self@, matches, Some(i as int)));
                Some(self.bar_mut(i))
            },
            None => None,
        }
    }

    /// Takes the first strip out to which a closure says yes. The compositor closes a surface,
    /// not an output.
    pub fn remove_matching<F: Fn(&Bar) -> bool>(&mut self, matches: F) -> (r: Option<Bar>)
        requires
            forall|bar: &Bar| #[trigger] matches.requires((bar,)),
        ensures
            match r {
                Some(bar) => exists|i: int|
                    {
                        &&& #[trigger] first_said(old(self)@, matches, Some(i))
                        &&& bar == old(self)@[i].1
                        &&& final(self)@ == old(self)@.remove(i)
                    },
                None => first_said(old(self)@, matches, None) && final(self)@ == old(self)@,
            },
    {
        match self.position(matches) {
            Some(i) => {
                assert(first_said(self@, matches, Some(i as int)));
                Some(self.entries.remove(i).1)
            },
            None => None,
        }
    }
}

/// Whether a strip stands for an output, by the equality of the outputs.
pub open spec fn is_for<Id: PartialEq, Bar>(entry: (Id, Bar), id: Id) -> bool {
    entry.0.eq_spec(&id)
}

/// Whether an output has a strip.
pub open spec fn has_bar<Id: PartialEq, Bar>(entries: Seq<(Id, Bar)>, id: Id) -> bool {
    exists|i: int| 0 <= i < entries.len() && is_for(#[trigger] entries[i], id)
}

/// No output has two strips.
pub open spec fn one_per_output<Id: PartialEq, Bar>(entries: Seq<(Id, Bar)>) -> bool {
    forall|i: int, j: int|
        0 <= i < j < entries.len() ==> !is_for(#[trigger] entries[i], (#[trigger] entries[j]).0)
}

/// The first strip of an output is taken out; nothing happens where it has none.
pub open spec fn is_removal<Id: PartialEq, Bar>(
    before: Seq<(Id, Bar)>,
    id: Id,
    taken: Option<Bar>,
    after: Seq<(Id, Bar)>,
) -> bool {
    match taken {
        Some(bar) => exists|i: int|
            {
                &&& 0 <= i < before.len()
                &&& is_for(#[trigger] before[i], id)
                &&& forall|j: int| 0 <= j < i ==> !is_for(#[trigger] before[j], id)
                &&& bar == before[i].1
                &&& after == before.remove(i)
            },
        None => !has_bar(before, id) && after == before,
    }
}

impl<Id: PartialEq, Bar> OutputBars<Id, Bar> {
    fn place(&self, id: &Id) -> (r: Option<usize>)
        ensures
            Id::obeys_eq_spec() ==> match r {
                Some(i) => {
                    &&& i < self@.len()
                    &&& is_for(self@[i as int], *id)
                    &&& forall|j: int| 0 <= j < i ==> !is_for(#[trigger] self@[j], *id)
                },
                None => !has_bar(self@, *id),
            },
            r matches Some(i) ==> i < self@.len(),
    {
        for i in 0..self.entries.len()
            invariant
                Id::obeys_eq_spec() ==> forall|j: int|
                    0 <= j < i ==> !is_for(#[trigger] self.entries@[j], *id),
        {
            if self.entries[i].0 == *id {
                return Some(i);
            }
        }
        None
    }

    /// Whether an output has a strip. The equality of outputs is taken at its word.
    pub fn contains(&self, id: &Id) -> (r: bool)
        ensures
            Id::obeys_eq_spec() ==> r == has_bar(self@, *id),
    {
        self.place(id).is_some()
    }

    /// Gives an output a strip, unless it has one.
    pub fn insert(&mut self, id: Id, bar: Bar) -> (r: bool)
        ensures
            Id::obeys_eq_spec() ==> r == !has_bar(old(self)@, id),
            final(self)@ == (if r {
                old(self)@.push((id, bar))
            } else {
                old(self)@
            }),
            Id::obeys_eq_spec() && one_per_output(old(self)@) ==> one_per_output(final(self)@),
    {
        if self.contains(&id) {
            return false;
        }
        let ghost before = self@;
        self.entries.push((id, bar));
        proof {
            if Id::obeys_eq_spec() && one_per_output(before) {
                let after = self@;
                assert forall|i: int, j: int| 0 <= i < j < after.len() implies !is_for(
                    #[trigger] after[i],
                    (#[trigger] after[j]).0,
                ) by {
                    assert(after[i] == before[i]);
                    if j < before.len() {
                        assert(after[j] == before[j]);
                    }
                }
            }
        }
        true
    }

    /// Takes the strip of an output out. The others stay as they are.
    pub fn remove(&mut self, id: &Id) -> (r: Option<Bar>)
        ensures
            Id::obeys_eq_spec() ==> is_removal(old(self)@, *id, r, final(self)@),
            r is None ==> final(self)@ == old(self)@,
            Id::obeys_eq_spec() && one_per_output(old(self)@) ==> one_per_output(final(self)@),
    {
        match self.place(id) {
            Some(i) => {
                let ghost before = self@;
                let bar = self.entries.remove(i).1;
                proof {
                    if Id::obeys_eq_spec() {
                        assert(is_for(before[i as int], *id));
                        if one_per_output(before) {
                            lemma_removed(before, i as int);
                        }
                    }
                }
                Some(bar)
            },
            None => None,
        }
    }
}

/// An output that had no strip and is given one has it taken again as it was given, and all
/// the others are what they were.
pub proof fn a_strip_comes_and_goes<Id: PartialEq, Bar>(
    before: Seq<(Id, Bar)>,
    id: Id,
    bar: Bar,
    taken: Option<Bar>,
    after: Seq<(Id, Bar)>,
)
    requires
        id.eq_spec(&id),
        !has_bar(before, id),
        is_removal(before.push((id, bar)), id, taken, after),
    ensures
        taken == Some(bar),
        after == before,
{
    let with = before.push((id, bar));
    assert(is_for(with[before.len() as int], id));
    assert(has_bar(with, id));
    let i = choose|i: int|
        {
            &&& 0 <= i < with.len()
            &&& is_for(#[trigger] with[i], id)
            &&& forall|j: int| 0 <= j < i ==> !is_for(#[trigger] with[j], id)
            &&& taken->0 == with[i].1
            &&& after == with.remove(i)
        };
    if i < before.len() {
        assert(with[i] == before[i]);
    }
    assert(with.remove(before.len() as int) =~= before);
}

/// A strip that is taken out or changed leaves no output with two.
pub proof fn one_strip_per_output_is_kept<Id: PartialEq, Bar>(
    entries: Seq<(Id, Bar)>,
    k: int,
    bar: Bar,
)
    requires
        one_per_output(entries),
        0 <= k < entries.len(),
    ensures
        one_per_output(entries.remove(k)),
        one_per_output(entries.update(k, (entries[k].0, bar))),
{
    lemma_removed(entries, k);
    let after = entries.update(k, (entries[k].0, bar));
    assert forall|i: int, j: int| 0 <= i < j < after.len() implies !is_for(
        #[trigger] after[i],
        (#[trigger] after[j]).0,
    ) by {
        assert(!is_for(entries[i], entries[j].0));
    }
}

proof fn lemma_removed<Id: PartialEq, Bar>(entries: Seq<(Id, Bar)>, k: int)
    requires
        one_per_output(entries),
        0 <= k < entries.len(),
    ensures
        one_per_output(entries.remove(k)),
{
    let after = entries.remove(k);
    assert forall|i: int, j: int| 0 <= i < j < after.len() implies !is_for(
        #[trigger] after[i],
        (#[trigger] after[j]).0,
    ) by {
        let a = if i < k {
            i
        } else {
            i + 1
        };
        let b = if j < k {
            j
        } else {
            j + 1
        };
        assert(after[i] == entries[a] && after[j] == entries[b]);
    }
}

impl<Id, Bar> Default for OutputBars<Id, Bar> {
    fn default() -> (r: Self)
        ensures
            r@ == Seq::<(Id, Bar)>::empty(),
    {
        OutputBars::new()
    }
}

} // verus!
