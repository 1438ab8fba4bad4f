//! The pending set as a sequence of names, and what observing does to it.
//!
//! Everything here is mathematics: the tracker's contracts are stated over
//! these functions, and the laws below are proved of them.

use crate::tracker::MatchOutcome;
use vstd::prelude::*;

verus! {

/// Index of the first entry of `pending` equal to `name`, or `pending.len()`
/// when there is none.
pub open spec fn first_match(pending: Seq<Seq<char>>, name: Seq<char>) -> int
    decreases pending.len(),
{
    if pending.len() == 0 || pending[0] == name {
        0
    } else {
        1 + first_match(pending.drop_first(), name)
    }
}

/// The pending set after `name` was observed.
pub open spec fn pending_after(pending: Seq<Seq<char>>, name: Seq<char>) -> Seq<Seq<char>> {
    if pending.contains(name) {
        pending.remove(first_match(pending, name))
    } else {
        pending
    }
}

/// The outcome of observing `name`.
pub open spec fn outcome_of(pending: Seq<Seq<char>>, name: Seq<char>) -> MatchOutcome {
    if pending.contains(name) {
        MatchOutcome::Removed
    } else {
        MatchOutcome::NotFound
    }
}

/// How many entries of `pending` equal `name`.
pub open spec fn occurrences(pending: Seq<Seq<char>>, name: Seq<char>) -> nat
    decreases pending.len(),
{
    if pending.len() == 0 {
        0
    } else if pending[0] == name {
        1 + occurrences(pending.drop_first(), name)
    } else {
        occurrences(pending.drop_first(), name)
    }
}

/// The pending set after each name of `requests` was observed in turn.
pub open spec fn pending_after_all(
    pending: Seq<Seq<char>>,
    requests: Seq<Seq<char>>,
) -> Seq<Seq<char>>
    decreases requests.len(),
{
    if requests.len() == 0 {
        pending
    } else {
        pending_after_all(pending_after(pending, requests[0]), requests.drop_first())
    }
}

/// The difference `a - b`, or zero where `b` is the larger.
pub open spec fn minus_or_zero(a: nat, b: nat) -> nat {
    if a >= b {
        (a - b) as nat
    } else {
        0
    }
}

/// `first_match` is in range, points at `name` when `name` occurs, and
/// nothing before it equals `name`.
pub proof fn lemma_first_match(pending: Seq<Seq<char>>, name: Seq<char>)
    ensures
        0 <= first_match(pending, name) <= pending.len(),
        first_match(pending, name) < pending.len() <==> pending.contains(name),
        pending.contains(name) ==> pending[first_match(pending, name)] == name,
        forall|j: int| 0 <= j < first_match(pending, name) ==> pending[j] != name,
    decreases pending.len(),
{
    if pending.len() == 0 || pending[0] == name {
    } else {
        let rest = pending.drop_first();
        lemma_first_match(rest, name);
        let k = first_match(rest, name);
        if rest.contains(name) {
            assert(pending[k + 1] == rest[k]);
        }
        if pending.contains(name) {
            let i = choose|i: int| 0 <= i < pending.len() && pending[i] == name;
            assert(rest[i - 1] == name);
        }
        assert forall|j: int| 0 <= j < 1 + k implies pending[j] != name by {
            if j > 0 {
                assert(pending[j] == rest[j - 1]);
            }
        }
    }
}

/// A name occurs at least once exactly when the pending set contains it.
pub proof fn lemma_occurrences_contains(pending: Seq<Seq<char>>, name: Seq<char>)
    ensures
        occurrences(pending, name) > 0 <==> pending.contains(name),
    decreases pending.len(),
{
    if pending.len() > 0 {
        let rest = pending.drop_first();
        lemma_occurrences_contains(rest, name);
        if rest.contains(name) {
            let k = choose|k: int| 0 <= k < rest.len() && rest[k] == name;
            assert(pending[k + 1] == name);
        }
        if pending.contains(name) && pending[0] != name {
            let i = choose|i: int| 0 <= i < pending.len() && pending[i] == name;
            assert(rest[i - 1] == name);
        }
    }
}

/// Taking out the entry at `i` lowers the count of that entry's name by one
/// and leaves every other count as it was.
pub proof fn lemma_occurrences_remove(pending: Seq<Seq<char>>, i: int, name: Seq<char>)
    requires
        0 <= i < pending.len(),
    ensures
        occurrences(pending.remove(i), name) == if pending[i] == name {
            occurrences(pending, name) - 1
        } else {
            occurrences(pending, name) as int
        },
    decreases pending.len(),
{
    if i == 0 {
        assert(pending.remove(0) =~= pending.drop_first());
    } else {
        lemma_occurrences_remove(pending.drop_first(), i - 1, name);
        assert(pending.remove(i).drop_first() =~= pending.drop_first().remove(i - 1));
        assert(pending.remove(i)[0] == pending[0]);
    }
}

/// Observing `name` takes out one occurrence of `name`, if there is one, and
/// no occurrence of any other name.
pub proof fn lemma_observe_takes_one(pending: Seq<Seq<char>>, name: Seq<char>, other: Seq<char>)
    ensures
        occurrences(pending_after(pending, name), other) == if other == name && pending.contains(
            name,
        ) {
            occurrences(pending, other) - 1
        } else {
            occurrences(pending, other) as int
        },
        pending_after(pending, name).len() == if pending.contains(name) {
            pending.len() - 1
        } else {
            pending.len() as int
        },
{
    lemma_first_match(pending, name);
    if pending.contains(name) {
        lemma_occurrences_remove(pending, first_match(pending, name), other);
    }
}

/// A filename that is pending exactly once is removed by the first
/// observation, which shortens the pending set by one; a second observation
/// of the same filename finds nothing and changes nothing.
pub proof fn lemma_observed_twice(pending: Seq<Seq<char>>, name: Seq<char>)
    requires
        occurrences(pending, name) == 1,
    ensures
        outcome_of(pending, name) == MatchOutcome::Removed,
        pending_after(pending, name).len() == pending.len() - 1,
        outcome_of(pending_after(pending, name), name) == MatchOutcome::NotFound,
        pending_after(pending_after(pending, name), name) == pending_after(pending, name),
{
    lemma_occurrences_contains(pending, name);
    lemma_observe_takes_one(pending, name, name);
    lemma_occurrences_contains(pending_after(pending, name), name);
}

/// Whatever is observed, and however often, the pending set never grows:
/// it gets no longer, and no name occurs in it more often than before.
pub proof fn lemma_never_grows(
    pending: Seq<Seq<char>>,
    requests: Seq<Seq<char>>,
    name: Seq<char>,
)
    ensures
        pending_after_all(pending, requests).len() <= pending.len(),
        occurrences(pending_after_all(pending, requests), name) <= occurrences(pending, name),
    decreases requests.len(),
{
    if requests.len() > 0 {
        lemma_observe_takes_one(pending, requests[0], name);
        lemma_never_grows(pending_after(pending, requests[0]), requests.drop_first(), name);
    }
}

/// Once the pending set is empty it stays empty, whatever is observed.
pub proof fn lemma_empty_is_sticky(pending: Seq<Seq<char>>, requests: Seq<Seq<char>>)
    requires
        pending.len() == 0,
    ensures
        pending_after_all(pending, requests).len() == 0,
{
    lemma_never_grows(pending, requests, Seq::<char>::empty());
}

/// After any run of observations, a name is pending as often as it was at
/// the start, less once for each time it was observed, and never less than
/// not at all.
pub proof fn lemma_pending_count(
    pending: Seq<Seq<char>>,
    requests: Seq<Seq<char>>,
    name: Seq<char>,
)
    ensures
        occurrences(pending_after_all(pending, requests), name) == minus_or_zero(
            occurrences(pending, name),
            occurrences(requests, name),
        ),
    decreases requests.len(),
{
    if requests.len() > 0 {
        lemma_observe_takes_one(pending, requests[0], name);
        lemma_occurrences_contains(pending, name);
        lemma_pending_count(pending_after(pending, requests[0]), requests.drop_first(), name);
    }
}

/// The pending set is empty exactly when no name occurs in it.
pub proof fn lemma_empty_has_no_occurrences(pending: Seq<Seq<char>>)
    ensures
        pending.len() == 0 <==> forall|name: Seq<char>| #[trigger] occurrences(pending, name) == 0,
{
    if pending.len() > 0 {
        lemma_occurrences_contains(pending, pending[0]);
    }
}

/// The pending set has run empty exactly when every name was observed at
/// least as often as it was pending.
pub proof fn lemma_empty_when_all_observed(pending: Seq<Seq<char>>, requests: Seq<Seq<char>>)
    ensures
        pending_after_all(pending, requests).len() == 0 <==> forall|name: Seq<char>|
            occurrences(requests, name) >= #[trigger] occurrences(pending, name),
{
    let left = pending_after_all(pending, requests);
    lemma_empty_has_no_occurrences(left);
    if left.len() == 0 {
        assert forall|name: Seq<char>|
            occurrences(requests, name) >= #[trigger] occurrences(pending, name) by {
            lemma_pending_count(pending, requests, name);
            assert(occurrences(left, name) == 0);
        }
    }
    if forall|name: Seq<char>|
        occurrences(requests, name) >= #[trigger] occurrences(pending, name) {
        assert forall|name: Seq<char>| #[trigger] occurrences(left, name) == 0 by {
            lemma_pending_count(pending, requests, name);
            assert(occurrences(requests, name) >= occurrences(pending, name));
        }
    }
}

/// In a listing without duplicates every listed name occurs once.
pub proof fn lemma_listed_once(listing: Seq<Seq<char>>, name: Seq<char>)
    requires
        listing.no_duplicates(),
    ensures
        occurrences(listing, name) == if listing.contains(name) {
            1nat
        } else {
            0nat
        },
    decreases listing.len(),
{
    if listing.len() > 0 {
        let rest = listing.drop_first();
        assert forall|i: int, j: int| 0 <= i < rest.len() && 0 <= j < rest.len() && i != j implies rest[i]
            != rest[j] by {
            assert(rest[i] == listing[i + 1] && rest[j] == listing[j + 1]);
        }
        lemma_listed_once(rest, name);
        lemma_occurrences_contains(listing, name);
        if listing[0] == name && rest.contains(name) {
            let k = choose|k: int| 0 <= k < rest.len() && rest[k] == name;
            assert(listing[k + 1] == listing[0]);
        }
    }
}

/// For a listing without duplicates, as a directory gives it, the pending
/// set has run empty exactly when every listed file was asked for at least
/// once.
pub proof fn lemma_done_when_each_file_fetched(listing: Seq<Seq<char>>, requests: Seq<Seq<char>>)
    requires
        listing.no_duplicates(),
    ensures
        pending_after_all(listing, requests).len() == 0 <==> forall|i: int|
            0 <= i < listing.len() ==> requests.contains(#[trigger] listing[i]),
{
    lemma_empty_when_all_observed(listing, requests);
    if pending_after_all(listing, requests).len() == 0 {
        assert forall|i: int| 0 <= i < listing.len() implies requests.contains(
            #[trigger] listing[i],
        ) by {
            let name = listing[i];
            assert(listing.contains(name));
            lemma_listed_once(listing, name);
            assert(occurrences(requests, name) >= occurrences(listing, name));
            lemma_occurrences_contains(requests, name);
        }
    }
    if forall|i: int| 0 <= i < listing.len() ==> requests.contains(#[trigger] listing[i]) {
        assert forall|name: Seq<char>|
            occurrences(requests, name) >= #[trigger] occurrences(listing, name) by {
            lemma_listed_once(listing, name);
            lemma_occurrences_contains(requests, name);
            if listing.contains(name) {
                let i = choose|i: int| 0 <= i < listing.len() && listing[i] == name;
                assert(requests.contains(listing[i]));
            }
        }
    }
}

} // verus!
