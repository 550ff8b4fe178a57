use vstd::prelude::*;

use crate::keys::{round_key, round_key_text};
use crate::types::Entry;

verus! {

/// A stored key and its value, as plain text.
pub type Slot = (Seq<char>, Seq<char>);

/// No key is stored twice.
pub open spec fn keys_unique(s: Seq<Slot>) -> bool {
    forall|i: int, j: int| 0 <= i < j < s.len() ==> s[i].0 != s[j].0
}

pub open spec fn has_key(s: Seq<Slot>, k: Seq<char>) -> bool {
    exists|i: int| 0 <= i < s.len() && s[i].0 == k
}

/// The position of key `k`, where it is stored.
pub open spec fn key_index(s: Seq<Slot>, k: Seq<char>) -> int {
    choose|i: int| 0 <= i < s.len() && s[i].0 == k
}

/// The value stored under `k`, if any.
pub open spec fn value_of(s: Seq<Slot>, k: Seq<char>) -> Option<Seq<char>> {
    if has_key(s, k) {
        Some(s[key_index(s, k)].1)
    } else {
        None
    }
}

/// The store after `k` is set to `v`: an existing key is overwritten in place,
/// a new one is appended.
pub open spec fn store_insert(s: Seq<Slot>, k: Seq<char>, v: Seq<char>) -> Seq<Slot> {
    if has_key(s, k) {
        s.update(key_index(s, k), (k, v))
    } else {
        s.push((k, v))
    }
}

/// The values addressed to party `p` by senders `1..=k` other than `p`, in ascending
/// sender order; senders with nothing stored are skipped.
pub open spec fn answer_upto(s: Seq<Slot>, p: nat, round: Seq<char>, run: Seq<char>, k: nat) -> Seq<
    Seq<char>,
>
    decreases k,
{
    if k == 0 {
        Seq::empty()
    } else {
        let prev = answer_upto(s, p, round, run, (k - 1) as nat);
        let key = round_key(k, round, run);
        if k != p && has_key(s, key) {
            prev.push(s[key_index(s, key)].1)
        } else {
            prev
        }
    }
}

/// The commitments that party `p` receives when a round of a run with `parties`
/// seats completes.
pub open spec fn answer(s: Seq<Slot>, p: nat, round: Seq<char>, run: Seq<char>, parties: nat) -> Seq<
    Seq<char>,
> {
    answer_upto(s, p, round, run, parties)
}

/// The text of each string.
pub open spec fn texts(v: Seq<String>) -> Seq<Seq<char>> {
    v.map_values(|x: String| x@)
}

/// A round is complete once the store holds one entry per party.
pub open spec fn round_complete(s: Seq<Slot>, parties: u16) -> bool {
    s.len() == parties
}

/// The store after a submission: the entry is stored, and a completed round empties it.
pub open spec fn store_after_submit(s: Seq<Slot>, k: Seq<char>, v: Seq<char>, parties: u16) -> Seq<
    Slot,
> {
    let t = store_insert(s, k, v);
    if round_complete(t, parties) {
        Seq::empty()
    } else {
        t
    }
}

/// Transient key/value store for the commitments of one round.
pub struct RoundStore {
    slots: Vec<Entry>,
}

impl View for RoundStore {
    type V = Seq<Slot>;

    closed spec fn view(&self) -> Seq<Slot> {
        self.slots@.map_values(|e: Entry| (e.key@, e.value@))
    }
}

impl RoundStore {
    pub open spec fn wf(&self) -> bool {
        keys_unique(self@)
    }

    pub fn new() -> (r: RoundStore)
        ensures
            r.wf(),
            r@ == Seq::<Slot>::empty(),
    {
        let r = RoundStore { slots: Vec::new() };
        assert(r@ =~= Seq::<Slot>::empty());
        r
    }

    /// Number of stored keys.
    pub fn len(&self) -> (r: usize)
        ensures
            r == self@.len(),
    {
        self.slots.len()
    }

    fn position(&self, key: &String) -> (r: Option<usize>)
        requires
            self.wf(),
        ensures
            r.is_none() ==> !has_key(self@, key@),
            r.is_some() ==> r.unwrap() < self@.len() && self@[r.unwrap() as int].0 == key@
                && key_index(self@, key@) == r.unwrap(),
    {
        let mut i: usize = 0;
        while i < self.slots.len()
            invariant
                self.wf(),
                i <= self.slots.len(),
                forall|j: int| 0 <= j < i ==> self@[j].0 != key@,
            decreases self.slots.len() - i,
        {
            if self.slots[i].key == *key {
                proof {
                    assert(self@[i as int].0 == key@);
                    assert(has_key(self@, key@));
                    let j = key_index(self@, key@);
                }
                return Some(i);
            }
            i = i + 1;
        }
        None
    }

    /// The value stored under `key`.
    pub fn get(&self, key: &String) -> (r: Option<String>)
        requires
            self.wf(),
        ensures
            r.is_some() == has_key(self@, key@),
            r.is_some() ==> value_of(self@, key@) == Some(r.unwrap()@),
    {
        match self.position(key) {
            Some(i) => Some(self.slots[i].value.clone()),
            None => None,
        }
    }

    /// Sets `key` to `value`, overwriting a value already stored under it.
    pub fn insert(&mut self, key: String, value: String)
        requires
            old(self).wf(),
        ensures
            final(self).wf(),
            final(self)@ == store_insert(old(self)@, key@, value@),
    {
        match self.position(&key) {
            Some(i) => {
                let ghost k = key@;
                let ghost v = value@;
                self.slots.set(i, Entry { key, value });
                assert(self@ =~= old(self)@.update(i as int, (k, v)));
            },
            None => {
                let ghost k = key@;
                let ghost v = value@;
                self.slots.push(Entry { key, value });
                assert(self@ =~= old(self)@.push((k, v)));
            },
        }
    }

    /// Drops every stored key.
    pub fn clear(&mut self)
        ensures
            final(self).wf(),
            final(self)@ == Seq::<Slot>::empty(),
    {
        self.slots = Vec::new();
        assert(self@ =~= Seq::<Slot>::empty());
    }

    /// The values addressed to `party` for `round` of `run` by the other parties
    /// `1..=parties`, in ascending sender order.
    pub fn answer_for(&self, party: u16, round: &str, run: &str, parties: u16) -> (r: Vec<String>)
        requires
            self.wf(),
        ensures
            texts(r@) == answer(self@, party as nat, round@, run@, parties as nat),
    {
        let mut out: Vec<String> = Vec::new();
        let mut i: u16 = 0;
        while i < parties
            invariant
                self.wf(),
                i <= parties,
                texts(out@) == answer_upto(self@, party as nat, round@, run@, i as nat),
            decreases parties - i,
        {
            i = i + 1;
            let ghost prev = out@;
            if i != party {
                let key = round_key_text(i, round, run);
                match self.get(&key) {
                    Some(v) => {
                        out.push(v);
                        assert(texts(out@) =~= texts(prev).push(out@.last()@));
                    },
                    None => {},
                }
            }
        }
        out
    }
}

/// The store after the submissions `subs[0..i]`, in order, starting from an empty store.
pub open spec fn store_after_all(subs: Seq<Slot>, parties: u16, i: nat) -> Seq<Slot>
    decreases i,
{
    if i == 0 || i > subs.len() {
        Seq::empty()
    } else {
        let prev = store_after_all(subs, parties, (i - 1) as nat);
        store_after_submit(prev, subs[i - 1].0, subs[i - 1].1, parties)
    }
}

/// The senders, in ascending order, whose commitments make up `answer_upto(s, p, round, run, k)`.
pub open spec fn answer_senders(s: Seq<Slot>, p: nat, round: Seq<char>, run: Seq<char>, k: nat) -> Seq<
    nat,
>
    decreases k,
{
    if k == 0 {
        Seq::empty()
    } else {
        let prev = answer_senders(s, p, round, run, (k - 1) as nat);
        if k != p && has_key(s, round_key(k, round, run)) {
            prev.push(k)
        } else {
            prev
        }
    }
}

proof fn lemma_distinct_prefix_stored(subs: Seq<Slot>, parties: u16, i: nat)
    requires
        keys_unique(subs),
        i <= subs.len(),
        i < parties,
    ensures
        store_after_all(subs, parties, i) == subs.subrange(0, i as int),
    decreases i,
{
    if i == 0 {
        assert(subs.subrange(0, 0) =~= Seq::<Slot>::empty());
    } else {
        lemma_distinct_prefix_stored(subs, parties, (i - 1) as nat);
        let prev = subs.subrange(0, i - 1);
        let k = subs[i - 1].0;
        if has_key(prev, k) {
            let j = choose|j: int| 0 <= j < prev.len() && prev[j].0 == k;
            assert(subs[j].0 == subs[i - 1].0);
        }
        assert(prev.push(subs[i - 1]) =~= subs.subrange(0, i as int));
    }
}

/// Submitting entries under distinct keys to an empty store completes the round at the
/// `parties`-th submission and at no earlier one; until then the store holds exactly the
/// entries submitted so far.
pub proof fn lemma_round_completes_at_last_key(subs: Seq<Slot>, parties: u16)
    requires
        parties >= 1,
        subs.len() <= parties,
        keys_unique(subs),
    ensures
        forall|i: int|
            0 <= i < subs.len() ==> (round_complete(
                store_insert(#[trigger] store_after_all(subs, parties, i as nat), subs[i].0, subs[i].1),
                parties,
            ) <==> i + 1 == parties),
        forall|i: int|
            0 <= i <= subs.len() && i < parties ==> #[trigger] store_after_all(subs, parties, i as nat)
                == subs.subrange(0, i),
{
    assert forall|i: int| 0 <= i <= subs.len() && i < parties implies #[trigger] store_after_all(
        subs,
        parties,
        i as nat,
    ) == subs.subrange(0, i) by {
        lemma_distinct_prefix_stored(subs, parties, i as nat);
    }
    assert forall|i: int| 0 <= i < subs.len() implies (round_complete(
        store_insert(#[trigger] store_after_all(subs, parties, i as nat), subs[i].0, subs[i].1),
        parties,
    ) <==> i + 1 == parties) by {
        lemma_distinct_prefix_stored(subs, parties, i as nat);
        let prev = subs.subrange(0, i);
        if has_key(prev, subs[i].0) {
            let j = choose|j: int| 0 <= j < prev.len() && prev[j].0 == subs[i].0;
            assert(subs[j].0 == subs[i].0);
        }
    }
}

/// Resubmitting under a key that is already stored overwrites its value and leaves the
/// number of stored entries unchanged.
pub proof fn lemma_overwrite_keeps_count(s: Seq<Slot>, k: Seq<char>, v: Seq<char>)
    requires
        keys_unique(s),
        has_key(s, k),
    ensures
        store_insert(s, k, v).len() == s.len(),
        keys_unique(store_insert(s, k, v)),
        value_of(store_insert(s, k, v), k) == Some(v),
{
    let t = store_insert(s, k, v);
    let i = key_index(s, k);
    assert(t[i].0 == k);
    assert(has_key(t, k));
    let j = key_index(t, k);
    assert(t[j].0 == k);
    assert(j == i);
}

/// Once a submission completes a round the store is empty, and the next submission is
/// stored as the only entry, whatever key it uses.
pub proof fn lemma_store_reset_after_round(
    s: Seq<Slot>,
    k: Seq<char>,
    v: Seq<char>,
    k2: Seq<char>,
    v2: Seq<char>,
    parties: u16,
)
    requires
        round_complete(store_insert(s, k, v), parties),
    ensures
        store_after_submit(s, k, v, parties) == Seq::<Slot>::empty(),
        store_insert(store_after_submit(s, k, v, parties), k2, v2) == seq![(k2, v2)],
{
    let e = Seq::<Slot>::empty();
    assert(!has_key(e, k2));
    assert(e.push((k2, v2)) =~= seq![(k2, v2)]);
}

proof fn lemma_answer_upto_agrees(
    s1: Seq<Slot>,
    s2: Seq<Slot>,
    p: nat,
    round: Seq<char>,
    run: Seq<char>,
    k: nat,
)
    requires
        forall|i: nat|
            1 <= i <= k && i != p ==> value_of(s1, #[trigger] round_key(i, round, run)) == value_of(
                s2,
                round_key(i, round, run),
            ),
    ensures
        answer_upto(s1, p, round, run, k) == answer_upto(s2, p, round, run, k),
    decreases k,
{
    if k > 0 {
        lemma_answer_upto_agrees(s1, s2, p, round, run, (k - 1) as nat);
        let key = round_key(k, round, run);
        if k != p {
            assert(value_of(s1, key) == value_of(s2, key));
        }
    }
}

/// The answer for party `p` reads only the entries of the other parties: two stores that
/// agree on those give `p` the same answer, whatever each holds under `p`'s own key.
pub proof fn lemma_answer_ignores_own_entry(
    s1: Seq<Slot>,
    s2: Seq<Slot>,
    p: nat,
    round: Seq<char>,
    run: Seq<char>,
    parties: nat,
)
    requires
        forall|i: nat|
            1 <= i <= parties && i != p ==> value_of(s1, #[trigger] round_key(i, round, run))
                == value_of(s2, round_key(i, round, run)),
    ensures
        answer(s1, p, round, run, parties) == answer(s2, p, round, run, parties),
{
    lemma_answer_upto_agrees(s1, s2, p, round, run, parties);
}

proof fn lemma_answer_upto_shape(s: Seq<Slot>, p: nat, round: Seq<char>, run: Seq<char>, k: nat)
    ensures
        ({
            let a = answer_upto(s, p, round, run, k);
            let who = answer_senders(s, p, round, run, k);
            &&& a.len() == who.len()
            &&& a.len() <= k
            &&& 1 <= p <= k ==> a.len() <= k - 1
            &&& forall|j: int|
                0 <= j < who.len() ==> 1 <= #[trigger] who[j] <= k && who[j] != p && value_of(
                    s,
                    round_key(who[j], round, run),
                ) == Some(a[j])
            &&& forall|j1: int, j2: int| 0 <= j1 < j2 < who.len() ==> who[j1] < who[j2]
            &&& forall|i: nat|
                1 <= i <= k && i != p && #[trigger] has_key(s, round_key(i, round, run))
                    ==> who.contains(i)
        }),
    decreases k,
{
    if k > 0 {
        lemma_answer_upto_shape(s, p, round, run, (k - 1) as nat);
        let prev = answer_senders(s, p, round, run, (k - 1) as nat);
        let who = answer_senders(s, p, round, run, k);
        if k != p && has_key(s, round_key(k, round, run)) {
            assert(who.last() == k);
            assert forall|i: nat|
                1 <= i <= k && i != p && #[trigger] has_key(s, round_key(i, round, run))
                    implies who.contains(i) by {
                if i < k {
                    let j = choose|j: int| 0 <= j < prev.len() && prev[j] == i;
                    assert(who[j] == i);
                } else {
                    assert(who[who.len() - 1] == i);
                }
            }
        }
    }
}

/// The answer for party `p` holds, in ascending order of sender, the commitment of each
/// other party `1..=parties` that has one stored, and nothing else: never an entry under
/// `p`'s own key, and at most `parties - 1` values when `p` is one of the parties.
pub proof fn lemma_answer_shape(s: Seq<Slot>, p: nat, round: Seq<char>, run: Seq<char>, parties: nat)
    ensures
        ({
            let a = answer(s, p, round, run, parties);
            let who = answer_senders(s, p, round, run, parties);
            &&& a.len() == who.len()
            &&& 1 <= p <= parties ==> a.len() <= parties - 1
            &&& forall|j: int|
                0 <= j < who.len() ==> 1 <= #[trigger] who[j] <= parties && who[j] != p
                    && value_of(s, round_key(who[j], round, run)) == Some(a[j])
            &&& forall|j1: int, j2: int| 0 <= j1 < j2 < who.len() ==> who[j1] < who[j2]
            &&& forall|i: nat|
                1 <= i <= parties && i != p && #[trigger] has_key(s, round_key(i, round, run))
                    ==> who.contains(i)
        }),
{
    lemma_answer_upto_shape(s, p, round, run, parties);
}

} // verus!
