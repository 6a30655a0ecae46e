//! The usage counter store: how many times each command has been dispatched.
use vstd::prelude::*;
use vstd::string::*;
use crate::text::{decimal, push_decimal};

verus! {

/// What the count of `name` is in `m`: absent names count zero.
pub open spec fn count_of(m: Map<Seq<char>, nat>, name: Seq<char>) -> nat {
    if m.contains_key(name) {
        m[name]
    } else {
        0
    }
}

/// `m` after one more use of `name`: its entry is inserted at zero if missing, then raised by one.
pub open spec fn bumped(m: Map<Seq<char>, nat>, name: Seq<char>) -> Map<Seq<char>, nat> {
    m.insert(name, count_of(m, name) + 1)
}

/// The order of first use after one more use of `name`: a new name goes last.
pub open spec fn bumped_order(order: Seq<Seq<char>>, name: Seq<char>) -> Seq<Seq<char>> {
    if order.contains(name) {
        order
    } else {
        order.push(name)
    }
}

/// The counters after the uses `names`, in that order, starting from no counters at all.
pub open spec fn tally(names: Seq<Seq<char>>) -> Map<Seq<char>, nat>
    decreases names.len(),
{
    if names.len() == 0 {
        Map::empty()
    } else {
        bumped(tally(names.drop_last()), names.last())
    }
}

/// How many times `name` occurs in `names`.
pub open spec fn occurrences(names: Seq<Seq<char>>, name: Seq<char>) -> nat
    decreases names.len(),
{
    if names.len() == 0 {
        0
    } else {
        occurrences(names.drop_last(), name) + if names.last() == name {
            1nat
        } else {
            0nat
        }
    }
}

/// One line of the usage report.
pub open spec fn report_line(name: Seq<char>, count: nat) -> Seq<char> {
    "- "@ + name + ": "@ + decimal(count) + "\n"@
}

/// The lines of the usage report for the names `order`, one line per name, in that order.
pub open spec fn report_lines(order: Seq<Seq<char>>, m: Map<Seq<char>, nat>) -> Seq<char>
    decreases order.len(),
{
    if order.len() == 0 {
        Seq::empty()
    } else {
        report_lines(order.drop_last(), m) + report_line(order.last(), count_of(m, order.last()))
    }
}

/// The whole usage report: a header line, then one line per command.
pub open spec fn report_text(order: Seq<Seq<char>>, m: Map<Seq<char>, nat>) -> Seq<char> {
    "Commands used:\n"@ + report_lines(order, m)
}

/// However the uses of commands interleave, once they have been counted one at a time from no
/// counters at all, the count of each name is exactly the number of times it was used: no use
/// is lost and none is counted twice.
pub proof fn lemma_tally_counts_occurrences(names: Seq<Seq<char>>, name: Seq<char>)
    ensures
        count_of(tally(names), name) == occurrences(names, name),
    decreases names.len(),
{
    if names.len() > 0 {
        lemma_tally_counts_occurrences(names.drop_last(), name);
    }
}

/// The count of every command name that has been dispatched, kept in the order in which
/// each name was first seen.
pub struct UsageCounters {
    names: Vec<String>,
    counts: Vec<u64>,
}

impl UsageCounters {
    /// The names held, in the order in which they were first counted.
    pub closed spec fn order(&self) -> Seq<Seq<char>> {
        self.names@.map_values(|s: String| s@)
    }

    closed spec fn position(&self, name: Seq<char>) -> int {
        choose|i: int| 0 <= i < self.order().len() && self.order()[i] == name
    }

    /// The count of each name held.
    pub closed spec fn view(&self) -> Map<Seq<char>, nat> {
        Map::new(
            |n: Seq<char>| self.order().contains(n),
            |n: Seq<char>| self.counts@[self.position(n)] as nat,
        )
    }

    /// Names are held once each, with one count each.
    pub closed spec fn wf(&self) -> bool {
        &&& self.names@.len() == self.counts@.len()
        &&& self.order().no_duplicates()
    }

    /// No count has reached the largest `u64`, so each may be raised once more.
    pub open spec fn below_limit(&self) -> bool {
        forall|n: Seq<char>| #[trigger] self.view().contains_key(n) ==> self.view()[n] < u64::MAX
    }

    proof fn lemma_position(&self, i: int)
        requires
            self.wf(),
            0 <= i < self.order().len(),
        ensures
            self.position(self.order()[i]) == i,
            self.view().contains_key(self.order()[i]),
            self.view()[self.order()[i]] == self.counts@[i] as nat,
    {
        let n = self.order()[i];
        assert(self.order().contains(n));
        let j = self.position(n);
        assert(0 <= j < self.order().len() && self.order()[j] == n);
    }

    /// No counters at all.
    pub fn new() -> (r: UsageCounters)
        ensures
            r.wf(),
            r.view() == Map::<Seq<char>, nat>::empty(),
            r.order() == Seq::<Seq<char>>::empty(),
    {
        let r = UsageCounters { names: Vec::new(), counts: Vec::new() };
        assert(r.order() =~= Seq::<Seq<char>>::empty());
        assert(r.view() =~= Map::<Seq<char>, nat>::empty());
        r
    }

    fn find(&self, name: &String) -> (r: Option<usize>)
        requires
            self.wf(),
        ensures
            match r {
                Some(i) => i < self.order().len() && self.order()[i as int] == name@,
                None => !self.order().contains(name@),
            },
    {
        let mut i: usize = 0;
        while i < self.names.len()
            invariant
                self.wf(),
                i <= self.names@.len(),
                forall|j: int| 0 <= j < i ==> self.order()[j] != name@,
            decreases self.names@.len() - i,
        {
            if self.names[i] == *name {
                return Some(i);
            }
            i = i + 1;
        }
        None
    }

    /// The count of `name`: zero where it was never counted.
    pub fn count(&self, name: &str) -> (r: u64)
        requires
            self.wf(),
        ensures
            r as nat == count_of(self.view(), name@),
    {
        let key = name.to_owned();
        match self.find(&key) {
            Some(i) => {
                proof { self.lemma_position(i as int); }
                self.counts[i]
            },
            None => 0,
        }
    }

    /// Whether every count may still be raised by one.
    pub fn is_below_limit(&self) -> (r: bool)
        requires
            self.wf(),
        ensures
            r == self.below_limit(),
    {
        let mut i: usize = 0;
        while i < self.counts.len()
            invariant
                self.wf(),
                i <= self.counts@.len(),
                forall|j: int| 0 <= j < i ==> self.counts@[j] < u64::MAX,
            decreases self.counts@.len() - i,
        {
            if self.counts[i] == u64::MAX {
                proof { self.lemma_position(i as int); }
                return false;
            }
            i = i + 1;
        }
        proof {
            assert forall|n: Seq<char>| #[trigger] self.view().contains_key(n) implies self.view()[n]
                < u64::MAX by {
                let j = choose|j: int| 0 <= j < self.order().len() && self.order()[j] == n;
                self.lemma_position(j);
            }
        }
        true
    }

    /// Counts one more use of `name`, first inserting it at zero if it is missing.
    pub fn increment(&mut self, name: &str)
        requires
            old(self).wf(),
            count_of(old(self).view(), name@) < u64::MAX,
        ensures
            final(self).wf(),
            final(self).view() == bumped(old(self).view(), name@),
            final(self).order() == bumped_order(old(self).order(), name@),
    {
        let key = name.to_owned();
        match self.find(&key) {
            Some(i) => {
                proof { old(self).lemma_position(i as int); }
                let c = self.counts[i];
                self.counts.set(i, c + 1);
                proof {
                    assert(self.order() == old(self).order());
                    assert forall|n: Seq<char>| self.order().contains(n) implies #[trigger] self.view()[n]
                        == bumped(old(self).view(), name@)[n] by {
                        let j = choose|j: int| 0 <= j < self.order().len() && self.order()[j] == n;
                        self.lemma_position(j);
                        old(self).lemma_position(j);
                    }
                    assert(self.view() =~= bumped(old(self).view(), name@));
                }
            },
            None => {
                self.names.push(key);
                self.counts.push(1);
                proof {
                    assert(self.order() =~= old(self).order().push(name@));
                    assert forall|n: Seq<char>| self.order().contains(n) implies #[trigger] self.view()[n]
                        == bumped(old(self).view(), name@)[n] by {
                        let j = choose|j: int| 0 <= j < self.order().len() && self.order()[j] == n;
                        self.lemma_position(j);
                        if j < old(self).order().len() {
                            old(self).lemma_position(j);
                        }
                    }
                    assert forall|n: Seq<char>| old(self).order().contains(n) implies self.order().contains(n) by {
                        let j = choose|j: int| 0 <= j < old(self).order().len() && old(self).order()[j] == n;
                        assert(self.order()[j] == n);
                    }
                    assert(self.order()[old(self).order().len() as int] == name@);
                    assert(self.view() =~= bumped(old(self).view(), name@));
                }
            },
        }
    }
    /// A copy of every name with its count, in the order in which the names were first counted.
    pub fn snapshot(&self) -> (r: Vec<(String, u64)>)
        requires
            self.wf(),
        ensures
            r@.len() == self.order().len(),
            self.order().no_duplicates(),
            forall|n: Seq<char>| self.view().contains_key(n) <==> self.order().contains(n),
            forall|i: int|
                0 <= i < r@.len() ==> (#[trigger] r@[i]).0@ == self.order()[i] && r@[i].1 as nat
                    == self.view()[self.order()[i]],
    {
        let mut r: Vec<(String, u64)> = Vec::new();
        let mut i: usize = 0;
        while i < self.names.len()
            invariant
                self.wf(),
                i <= self.names@.len(),
                r@.len() == i,
                forall|j: int|
                    0 <= j < i ==> (#[trigger] r@[j]).0@ == self.order()[j] && r@[j].1 as nat
                        == self.view()[self.order()[j]],
            decreases self.names@.len() - i,
        {
            proof { self.lemma_position(i as int); }
            r.push((self.names[i].clone(), self.counts[i]));
            i = i + 1;
        }
        r
    }

    /// The usage report: the line `Commands used:`, then `- name: count` for each name, one per
    /// line, in the order in which the names were first counted.
    pub fn report(&self) -> (r: String)
        requires
            self.wf(),
        ensures
            r@ == report_text(self.order(), self.view()),
    {
        let mut s = "Commands used:\n".to_owned();
        let mut i: usize = 0;
        while i < self.names.len()
            invariant
                self.wf(),
                i <= self.names@.len(),
                s@ == "Commands used:\n"@ + report_lines(self.order().take(i as int), self.view()),
            decreases self.names@.len() - i,
        {
            proof { self.lemma_position(i as int); }
            s.append("- ");
            s.append(self.names[i].as_str());
            s.append(": ");
            push_decimal(&mut s, self.counts[i]);
            s.append("\n");
            proof {
                let t = self.order().take(i + 1);
                assert(t.drop_last() =~= self.order().take(i as int));
                assert(t.last() == self.order()[i as int]);
                assert(s@ =~= "Commands used:\n"@ + report_lines(t, self.view()));
            }
            i = i + 1;
        }
        assert(self.order().take(self.names@.len() as int) =~= self.order());
        s
    }
}

} // verus!
