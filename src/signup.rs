use vstd::prelude::*;

use crate::types::{PartySignup, Seat};

verus! {

/// The seat handed out by a signup when the last one handed out was `cur`: the next
/// number of the same run while the run has free seats, else seat 1 of a new run `fresh`.
pub open spec fn signup_step(cur: Seat, parties: u16, fresh: Seq<char>) -> Seat {
    if cur.0 < parties {
        ((cur.0 + 1) as u16, cur.1)
    } else {
        (1, fresh)
    }
}

/// The seats handed out by successive signups from `start`, the i-th one minting
/// `fresh[i]` should it open a new run.
pub open spec fn signup_sequence(start: Seat, parties: u16, fresh: Seq<Seq<char>>) -> Seq<Seat>
    decreases fresh.len(),
{
    if fresh.len() == 0 {
        Seq::empty()
    } else {
        let prev = signup_sequence(start, parties, fresh.drop_last());
        let cur = if prev.len() == 0 {
            start
        } else {
            prev.last()
        };
        prev.push(signup_step(cur, parties, fresh.last()))
    }
}

/// The seat that follows `current` in a run of `parties` seats; `fresh_uuid` names the
/// new run should `current` be the last seat.
pub fn next_signup(current: &PartySignup, parties: u16, fresh_uuid: String) -> (r: PartySignup)
    ensures
        r@ == signup_step(current@, parties, fresh_uuid@),
{
    if current.number < parties {
        PartySignup { number: current.number + 1, uuid: current.uuid.clone() }
    } else {
        PartySignup { number: 1, uuid: fresh_uuid }
    }
}

proof fn lemma_signups_fill_run(run: Seq<char>, parties: u16, fresh: Seq<Seq<char>>)
    requires
        fresh.len() <= parties,
    ensures
        signup_sequence((0, run), parties, fresh).len() == fresh.len(),
        forall|i: int|
            0 <= i < fresh.len() ==> #[trigger] signup_sequence((0, run), parties, fresh)[i] == (
            (i + 1) as u16,
            run,
        ),
    decreases fresh.len(),
{
    if fresh.len() > 0 {
        lemma_signups_fill_run(run, parties, fresh.drop_last());
    }
}

/// From a fresh counter for run `run`, `parties` successive signups hand out seats
/// `1..=parties` of that run, and the next one opens a new run as its seat 1.
pub proof fn lemma_signup_rollover(run: Seq<char>, parties: u16, fresh: Seq<Seq<char>>)
    requires
        parties >= 1,
        fresh.len() == parties + 1,
        fresh[parties as int] != run,
    ensures
        signup_sequence((0, run), parties, fresh).len() == parties + 1,
        forall|i: int|
            0 <= i < parties ==> #[trigger] signup_sequence((0, run), parties, fresh)[i] == (
            (i + 1) as u16,
            run,
        ),
        signup_sequence((0, run), parties, fresh)[parties as int] == (1u16, fresh[parties as int]),
        signup_sequence((0, run), parties, fresh)[parties as int].1 != run,
{
    let prefix = fresh.drop_last();
    lemma_signups_fill_run(run, parties, prefix);
    let prev = signup_sequence((0, run), parties, prefix);
    assert(prev.last() == prev[parties - 1]);
}

} // verus!
