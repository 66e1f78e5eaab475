//! Tallies: how often each of a number of names has been counted.

use vstd::prelude::*;
use vstd::std_specs::cmp::PartialEqSpecImpl;

verus! {

/// One line of a [`Tally`].
#[derive(Debug, PartialEq, Eq)]
pub struct TallyEntry {
    pub name: String,
    pub count: u64,
}

impl View for TallyEntry {
    type V = (Seq<char>, u64);

    open spec fn view(&self) -> (Seq<char>, u64) {
        (self.name@, self.count)
    }
}

impl Clone for TallyEntry {
    fn clone(&self) -> (copy: Self)
        ensures
            copy@ == self@,
    {
        TallyEntry { name: self.name.clone(), count: self.count }
    }
}

/// Position of the first line for the given name, or the number of lines
/// where there is none.
pub open spec fn line_of(lines: Seq<(Seq<char>, u64)>, name: Seq<char>) -> int
    decreases lines.len(),
{
    if lines.len() == 0 {
        0
    } else if lines[0].0 == name {
        0
    } else {
        1 + line_of(lines.drop_first(), name)
    }
}

/// How often the name has been counted.
pub open spec fn counted_for(lines: Seq<(Seq<char>, u64)>, name: Seq<char>) -> u64 {
    let at = line_of(lines, name);
    if at < lines.len() {
        lines[at].1
    } else {
        0
    }
}

/// The lines after the name has been counted once more: its line is one
/// higher, unless it is at the largest number already, or a new line with the
/// count of one is added at the end.
pub open spec fn with_one_more(lines: Seq<(Seq<char>, u64)>, name: Seq<char>) -> Seq<
    (Seq<char>, u64),
> {
    let at = line_of(lines, name);
    if at < lines.len() {
        lines.update(
            at,
            (
                name,
                if lines[at].1 < u64::MAX {
                    (lines[at].1 + 1) as u64
                } else {
                    lines[at].1
                },
            ),
        )
    } else {
        lines.push((name, 1))
    }
}

/// The lines after each of the names has been counted, one after the other.
pub open spec fn with_all(lines: Seq<(Seq<char>, u64)>, names: Seq<Seq<char>>) -> Seq<
    (Seq<char>, u64),
>
    decreases names.len(),
{
    if names.len() == 0 {
        lines
    } else {
        with_one_more(with_all(lines, names.drop_last()), names.last())
    }
}

/// `line_of` finds the first line for the name, and finds none only if there
/// is none.
pub proof fn lemma_line_of(lines: Seq<(Seq<char>, u64)>, name: Seq<char>)
    ensures
        0 <= line_of(lines, name) <= lines.len(),
        line_of(lines, name) < lines.len() ==> lines[line_of(lines, name)].0 == name,
        forall|i: int| 0 <= i < line_of(lines, name) ==> (#[trigger] lines[i]).0 != name,
    decreases lines.len(),
{
    if lines.len() > 0 && lines[0].0 != name {
        let rest = lines.drop_first();
        lemma_line_of(rest, name);
        assert forall|i: int| 0 <= i < line_of(lines, name) implies (#[trigger] lines[i]).0
            != name by {
            if i > 0 {
                assert(lines[i] == rest[i - 1]);
            }
        }
    }
}

/// For every name of the first list of lines, the second list has the count
/// that the first has.
pub open spec fn counts_agree(first: Seq<(Seq<char>, u64)>, second: Seq<(Seq<char>, u64)>) -> bool {
    forall|i: int|
        0 <= i < first.len() ==> counted_for(second, (#[trigger] first[i]).0) == counted_for(
            first,
            first[i].0,
        )
}

/// Two lists of lines count the same: for every name of either, both have
/// the same count. The order of the lines does not matter.
pub open spec fn same_counts(first: Seq<(Seq<char>, u64)>, second: Seq<(Seq<char>, u64)>) -> bool {
    counts_agree(first, second) && counts_agree(second, first)
}

/// Two lists of lines count the same if, and only if, every name has been
/// counted as often in the one as in the other.
pub proof fn lemma_same_counts(first: Seq<(Seq<char>, u64)>, second: Seq<(Seq<char>, u64)>)
    ensures
        same_counts(first, second) == (forall|name: Seq<char>|
            counted_for(first, name) == counted_for(second, name)),
{
    if same_counts(first, second) {
        assert forall|name: Seq<char>| counted_for(first, name) == counted_for(
            second,
            name,
        ) by {
            lemma_line_of(first, name);
            lemma_line_of(second, name);
            let at = line_of(first, name);
            let found = line_of(second, name);
            if at < first.len() {
                assert(first[at].0 == name);
            } else if found < second.len() {
                assert(second[found].0 == name);
            }
        }
    }
    if forall|name: Seq<char>| counted_for(first, name) == counted_for(second, name) {
        assert(counts_agree(first, second));
        assert(counts_agree(second, first));
    }
}

/// A tally. Two tallies are equal if every name has been counted as often in
/// the one as in the other.
#[derive(Debug, Eq)]
pub struct Tally {
    lines: Vec<TallyEntry>,
}

impl PartialEq for Tally {
    fn eq(&self, other: &Self) -> (same: bool) {
        self.agrees(other) && other.agrees(self)
    }
}

impl PartialEqSpecImpl for Tally {
    open spec fn obeys_eq_spec() -> bool {
        true
    }

    open spec fn eq_spec(&self, other: &Self) -> bool {
        same_counts(self@, other@)
    }
}

impl View for Tally {
    type V = Seq<(Seq<char>, u64)>;

    /// The lines of the tally, in the order in which their names were first
    /// counted.
    closed spec fn view(&self) -> Seq<(Seq<char>, u64)> {
        self.lines@.map_values(|l: TallyEntry| l@)
    }
}

impl Clone for Tally {
    fn clone(&self) -> (copy: Self)
        ensures
            copy@ == self@,
    {
        let lines = self.lines.clone();
        assert(lines@.map_values(|l: TallyEntry| l@) =~= self.lines@.map_values(
            |l: TallyEntry| l@,
        ));
        Tally { lines }
    }
}

impl Tally {
    /// A tally in which nothing has been counted.
    pub fn new() -> (tally: Tally)
        ensures
            tally@ == Seq::<(Seq<char>, u64)>::empty(),
    {
        let tally = Tally { lines: Vec::new() };
        assert(tally@ =~= Seq::<(Seq<char>, u64)>::empty());
        tally
    }

    /// Number of names that have been counted.
    pub fn len(&self) -> (n: usize)
        ensures
            n == self@.len(),
    {
        self.lines.len()
    }

    fn find(&self, name: &str) -> (at: usize)
        ensures
            at == line_of(self@, name@),
            at <= self@.len(),
    {
        let wanted = String::from_str(name);
        let mut at: usize = 0;
        assert(self@.skip(0) =~= self@);
        while at < self.lines.len() && !(self.lines[at].name == wanted)
            invariant
                at <= self.lines@.len(),
                wanted@ == name@,
                line_of(self@, name@) == at + line_of(self@.skip(at as int), name@),
            decreases self.lines@.len() - at,
        {
            proof {
                let rest = self@.skip(at as int);
                assert(rest[0] == self@[at as int]);
                assert(rest.drop_first() =~= self@.skip(at + 1));
            }
            at = at + 1;
        }
        proof {
            let rest = self@.skip(at as int);
            if at < self.lines@.len() {
                assert(rest[0] == self@[at as int]);
            }
        }
        at
    }

    /// Whether, for every name of this tally, the other tally has the count
    /// that this tally has.
    pub fn agrees(&self, other: &Tally) -> (yes: bool)
        ensures
            yes == counts_agree(self@, other@),
    {
        let mut i: usize = 0;
        while i < self.lines.len()
            invariant
                i <= self.lines@.len(),
                forall|j: int|
                    0 <= j < i ==> counted_for(other@, (#[trigger] self@[j]).0) == counted_for(
                        self@,
                        self@[j].0,
                    ),
            decreases self.lines@.len() - i,
        {
            let name = self.lines[i].name.as_str();
            if other.get(name) != self.get(name) {
                assert(counted_for(other@, self@[i as int].0) != counted_for(
                    self@,
                    self@[i as int].0,
                ));
                return false;
            }
            i = i + 1;
        }
        true
    }

    /// How often the name has been counted.
    pub fn get(&self, name: &str) -> (count: u64)
        ensures
            count == counted_for(self@, name@),
    {
        let at = self.find(name);
        if at < self.lines.len() {
            self.lines[at].count
        } else {
            0
        }
    }

    /// The name of the line at the given position.
    pub fn name_at(&self, index: usize) -> (name: &str)
        requires
            index < self@.len(),
        ensures
            name@ == self@[index as int].0,
    {
        self.lines[index].name.as_str()
    }

    /// The count of the line at the given position.
    pub fn count_at(&self, index: usize) -> (count: u64)
        requires
            index < self@.len(),
        ensures
            count == self@[index as int].1,
    {
        self.lines[index].count
    }

    /// Counts the name once more.
    pub fn add(&mut self, name: &str)
        ensures
            final(self)@ == with_one_more(old(self)@, name@),
    {
        let at = self.find(name);
        if at < self.lines.len() {
            let line = &mut self.lines[at];
            if line.count < u64::MAX {
                line.count = line.count + 1;
            }
            proof {
                lemma_line_of(old(self)@, name@);
                assert(self@ =~= with_one_more(old(self)@, name@));
            }
        } else {
            self.lines.push(TallyEntry { name: String::from_str(name), count: 1 });
            assert(self@ =~= old(self)@.push((name@, 1)));
        }
    }
}

} // verus!
