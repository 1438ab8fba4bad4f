//! The pending set and the tracker that owns it.

use crate::pending::first_match;
use crate::pending::lemma_first_match;
use crate::pending::outcome_of;
use crate::pending::pending_after;
use vstd::prelude::*;

verus! {

/// What an observed filename did to the pending set.
#[derive(Clone, Copy, Debug, PartialEq, Eq, Structural)]
pub enum MatchOutcome {
    /// The first entry equal to the filename was taken out.
    Removed,
    /// No entry was equal to the filename; nothing changed.
    NotFound,
}

/// The names that `listing` holds, entry by entry.
pub open spec fn names_of(listing: Seq<String>) -> Seq<Seq<char>> {
    Seq::new(listing.len(), |i: int| listing[i]@)
}

/// Owner of the pending set: the filenames that no request has asked for yet,
/// in the order of the listing they came from.
///
/// The set is filled by `initialize` and afterwards only shrinks: `observe`
/// takes out at most one entry and nothing ever puts one in.
#[derive(Debug)]
pub struct CompletionTracker {
    pending: Vec<String>,
}

impl View for CompletionTracker {
    type V = Seq<Seq<char>>;

    closed spec fn view(&self) -> Seq<Seq<char>> {
        names_of(self.pending@)
    }
}

impl CompletionTracker {
    /// A tracker with nothing pending.
    pub fn new() -> (tracker: Self)
        ensures
            tracker@ == Seq::<Seq<char>>::empty(),
    {
        let tracker = CompletionTracker { pending: Vec::new() };
        assert(tracker@ =~= Seq::<Seq<char>>::empty());
        tracker
    }

    /// Replaces the pending set by `filenames`, entry for entry and in order.
    pub fn initialize(&mut self, filenames: Vec<String>)
        ensures
            final(self)@ == names_of(filenames@),
            final(self)@.len() == filenames@.len(),
            forall|i: int| 0 <= i < filenames@.len() ==> final(self)@.contains(filenames@[i]@),
    {
        self.pending = filenames;
        assert forall|i: int| 0 <= i < filenames@.len() implies self@.contains(filenames@[i]@) by {
            assert(self@[i] == filenames@[i]@);
        }
    }

    /// Looks `filename` up by exact equality and takes its first occurrence
    /// out of the pending set.
    pub fn observe(&mut self, filename: &str) -> (outcome: MatchOutcome)
        ensures
            outcome == outcome_of(old(self)@, filename@),
            final(self)@ == pending_after(old(self)@, filename@),
            old(self)@.contains(filename@) ==> outcome == MatchOutcome::Removed
                && final(self)@.len() == old(self)@.len() - 1,
            !old(self)@.contains(filename@) ==> outcome == MatchOutcome::NotFound
                && final(self)@ == old(self)@,
            old(self)@.contains(filename@) ==> ({
                let at = first_match(old(self)@, filename@);
                &&& 0 <= at < old(self)@.len()
                &&& old(self)@[at] == filename@
                &&& forall|j: int| 0 <= j < at ==> old(self)@[j] != filename@
                &&& final(self)@ == old(self)@.remove(at)
            }),
    {
        proof {
            lemma_first_match(self@, filename@);
        }
        let name = filename.to_owned();
        let mut i: usize = 0;
        while i < self.pending.len()
            invariant
                *self == *old(self),
                name@ == filename@,
                0 <= i <= self.pending.len(),
                forall|j: int| 0 <= j < i ==> self@[j] != filename@,
            decreases self.pending.len() - i,
        {
            if self.pending[i] == name {
                proof {
                    assert(self@[i as int] == filename@);
                    lemma_first_match(self@, filename@);
                }
                let _ = self.pending.remove(i);
                assert(self@ =~= old(self)@.remove(i as int));
                return MatchOutcome::Removed;
            }
            i += 1;
        }
        MatchOutcome::NotFound
    }

    /// Whether nothing is pending.
    pub fn is_empty(&self) -> (empty: bool)
        ensures
            empty == (self@.len() == 0),
    {
        self.pending.is_empty()
    }

    /// How many entries are pending.
    pub fn len(&self) -> (n: usize)
        ensures
            n == self@.len(),
    {
        self.pending.len()
    }

    /// A copy of the pending set, in order.
    pub fn pending(&self) -> (names: Vec<String>)
        ensures
            names_of(names@) == self@,
    {
        let mut names: Vec<String> = Vec::new();
        let mut i: usize = 0;
        while i < self.pending.len()
            invariant
                0 <= i <= self.pending.len(),
                names@.len() == i,
                forall|j: int| 0 <= j < i ==> names@[j]@ == self.pending@[j]@,
            decreases self.pending.len() - i,
        {
            names.push(self.pending[i].clone());
            i += 1;
        }
        assert(names_of(names@) =~= self@);
        names
    }
}

} // verus!
