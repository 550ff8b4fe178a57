use vstd::prelude::*;

use crate::types::{PartySignup, Seat};

verus! {

/// A live connection as plain values: its id and its seat, if it has one.
pub type Conn = (usize, Option<Seat>);

/// No connection id is registered twice.
pub open spec fn ids_unique(s: Seq<Conn>) -> bool {
    forall|i: int, j: int| 0 <= i < j < s.len() ==> s[i].0 != s[j].0
}

pub open spec fn is_registered(s: Seq<Conn>, id: usize) -> bool {
    exists|i: int| 0 <= i < s.len() && s[i].0 == id
}

/// The position of connection `id`, where it is registered.
pub open spec fn conn_index(s: Seq<Conn>, id: usize) -> int {
    choose|i: int| 0 <= i < s.len() && s[i].0 == id
}

/// The registry after `id` is registered with no seat (replacing any earlier record).
pub open spec fn registry_insert(s: Seq<Conn>, id: usize) -> Seq<Conn> {
    if is_registered(s, id) {
        s.update(conn_index(s, id), (id, None))
    } else {
        s.push((id, None))
    }
}

/// The registry after `id` is removed.
pub open spec fn registry_remove(s: Seq<Conn>, id: usize) -> Seq<Conn> {
    if is_registered(s, id) {
        s.remove(conn_index(s, id))
    } else {
        s
    }
}

/// The registry after connection `id` takes `seat`.
pub open spec fn registry_seat(s: Seq<Conn>, id: usize, seat: Seat) -> Seq<Conn> {
    if is_registered(s, id) {
        s.update(conn_index(s, id), (id, Some(seat)))
    } else {
        s
    }
}

/// The connection holds party number `number` (in any run).
pub open spec fn holds_number(c: Conn, number: u16) -> bool {
    match c.1 {
        Some(seat) => seat.0 == number,
        None => false,
    }
}

/// The connection holds seat `number` of run `run`.
pub open spec fn holds_seat(c: Conn, number: u16, run: Seq<char>) -> bool {
    c.1 == Some((number, run))
}

/// The first connection, in registration order, that holds party number `number`.
pub open spec fn first_with_number(s: Seq<Conn>, number: u16) -> Option<usize>
    decreases s.len(),
{
    if s.len() == 0 {
        None
    } else if holds_number(s[0], number) {
        Some(s[0].0)
    } else {
        first_with_number(s.drop_first(), number)
    }
}

/// The first connection, in registration order, seated as `number` in run `run`.
pub open spec fn first_with_seat(s: Seq<Conn>, number: u16, run: Seq<char>) -> Option<usize>
    decreases s.len(),
{
    if s.len() == 0 {
        None
    } else if holds_seat(s[0], number, run) {
        Some(s[0].0)
    } else {
        first_with_seat(s.drop_first(), number, run)
    }
}

/// A registered connection.
pub struct Client {
    conn_id: usize,
    signup: Option<PartySignup>,
}

/// The live connections, in the order they were registered.
pub struct Registry {
    clients: Vec<Client>,
}

pub closed spec fn conn_view(c: Client) -> Conn {
    (
        c.conn_id,
        match c.signup {
            Some(p) => Some(p@),
            None => None,
        },
    )
}

impl View for Registry {
    type V = Seq<Conn>;

    closed spec fn view(&self) -> Seq<Conn> {
        self.clients@.map_values(|c: Client| conn_view(c))
    }
}

impl Registry {
    pub open spec fn wf(&self) -> bool {
        ids_unique(self@)
    }

    pub fn new() -> (r: Registry)
        ensures
            r.wf(),
            r@ == Seq::<Conn>::empty(),
    {
        let r = Registry { clients: Vec::new() };
        assert(r@ =~= Seq::<Conn>::empty());
        r
    }

    fn position(&self, id: usize) -> (r: Option<usize>)
        requires
            self.wf(),
        ensures
            r.is_none() ==> !is_registered(self@, id),
            r.is_some() ==> r.unwrap() < self@.len() && self@[r.unwrap() as int].0 == id
                && conn_index(self@, id) == r.unwrap(),
    {
        let mut i: usize = 0;
        while i < self.clients.len()
            invariant
                self.wf(),
                i <= self.clients.len(),
                forall|j: int| 0 <= j < i ==> self@[j].0 != id,
            decreases self.clients.len() - i,
        {
            if self.clients[i].conn_id == id {
                proof {
                    assert(self@[i as int].0 == id);
                    assert(is_registered(self@, id));
                }
                return Some(i);
            }
            i = i + 1;
        }
        None
    }

    pub fn contains(&self, id: usize) -> (r: bool)
        requires
            self.wf(),
        ensures
            r == is_registered(self@, id),
    {
        self.position(id).is_some()
    }

    /// Registers connection `id` with no seat; a record already held under `id` is replaced.
    pub fn register(&mut self, id: usize)
        requires
            old(self).wf(),
        ensures
            final(self).wf(),
            final(self)@ == registry_insert(old(self)@, id),
    {
        match self.position(id) {
            Some(i) => {
                self.clients.set(i, Client { conn_id: id, signup: None });
                assert(self@ =~= old(self)@.update(i as int, (id, None)));
            },
            None => {
                self.clients.push(Client { conn_id: id, signup: None });
                assert(self@ =~= old(self)@.push((id, None)));
            },
        }
    }

    /// Removes connection `id`; nothing happens when it is not registered.
    pub fn deregister(&mut self, id: usize)
        requires
            old(self).wf(),
        ensures
            final(self).wf(),
            final(self)@ == registry_remove(old(self)@, id),
    {
        match self.position(id) {
            Some(i) => {
                self.clients.remove(i);
                assert(self@ =~= old(self)@.remove(i as int));
            },
            None => {},
        }
    }

    /// Records `signup` as the seat of connection `id`; returns whether `id` is registered.
    pub fn seat(&mut self, id: usize, signup: PartySignup) -> (r: bool)
        requires
            old(self).wf(),
        ensures
            final(self).wf(),
            r == is_registered(old(self)@, id),
            final(self)@ == registry_seat(old(self)@, id, signup@),
    {
        match self.position(id) {
            Some(i) => {
                let ghost seat = signup@;
                self.clients.set(i, Client { conn_id: id, signup: Some(signup) });
                assert(self@ =~= old(self)@.update(i as int, (id, Some(seat))));
                true
            },
            None => false,
        }
    }

    /// The first connection, in registration order, holding party number `number`.
    pub fn find_by_party_number(&self, number: u16) -> (r: Option<usize>)
        ensures
            r == first_with_number(self@, number),
    {
        let mut i: usize = 0;
        assert(self@.subrange(0, self@.len() as int) =~= self@);
        while i < self.clients.len()
            invariant
                i <= self.clients.len(),
                first_with_number(self@, number) == first_with_number(
                    self@.subrange(i as int, self@.len() as int),
                    number,
                ),
            decreases self.clients.len() - i,
        {
            let ghost rest = self@.subrange(i as int, self@.len() as int);
            assert(rest.drop_first() =~= self@.subrange(i + 1, self@.len() as int));
            assert(rest[0] == self@[i as int]);
            match &self.clients[i].signup {
                Some(s) => {
                    if s.number == number {
                        return Some(self.clients[i].conn_id);
                    }
                },
                None => {},
            }
            i = i + 1;
        }
        assert(self@.subrange(i as int, self@.len() as int).len() == 0);
        None
    }

    /// The first connection, in registration order, seated as `number` in run `run`.
    pub fn find_seat(&self, number: u16, run: &String) -> (r: Option<usize>)
        ensures
            r == first_with_seat(self@, number, run@),
    {
        let mut i: usize = 0;
        assert(self@.subrange(0, self@.len() as int) =~= self@);
        while i < self.clients.len()
            invariant
                i <= self.clients.len(),
                first_with_seat(self@, number, run@) == first_with_seat(
                    self@.subrange(i as int, self@.len() as int),
                    number,
                    run@,
                ),
            decreases self.clients.len() - i,
        {
            let ghost rest = self@.subrange(i as int, self@.len() as int);
            assert(rest.drop_first() =~= self@.subrange(i + 1, self@.len() as int));
            assert(rest[0] == self@[i as int]);
            match &self.clients[i].signup {
                Some(s) => {
                    if s.number == number && s.uuid == *run {
                        return Some(self.clients[i].conn_id);
                    }
                },
                None => {},
            }
            i = i + 1;
        }
        assert(self@.subrange(i as int, self@.len() as int).len() == 0);
        None
    }
}

proof fn lemma_found_number_is_holder(s: Seq<Conn>, number: u16)
    ensures
        first_with_number(s, number) matches Some(c) ==> exists|i: int|
            0 <= i < s.len() && #[trigger] s[i].0 == c && holds_number(s[i], number),
    decreases s.len(),
{
    if s.len() > 0 && !holds_number(s[0], number) {
        lemma_found_number_is_holder(s.drop_first(), number);
        if let Some(c) = first_with_number(s, number) {
            let i = choose|i: int|
                0 <= i < s.drop_first().len() && #[trigger] s.drop_first()[i].0 == c && holds_number(
                    s.drop_first()[i],
                    number,
                );
            assert(s[i + 1] == s.drop_first()[i]);
        }
    }
}

/// Once a connection is deregistered, no party-number lookup returns it; where it was
/// the only holder of `number`, the lookup of `number` finds nothing.
pub proof fn lemma_deregistered_not_found(s: Seq<Conn>, id: usize, number: u16)
    requires
        ids_unique(s),
    ensures
        first_with_number(registry_remove(s, id), number) != Some(id),
        (forall|i: int| 0 <= i < s.len() && holds_number(s[i], number) ==> #[trigger] s[i].0 == id)
            ==> first_with_number(registry_remove(s, id), number) == None::<usize>,
{
    let t = registry_remove(s, id);
    lemma_found_number_is_holder(t, number);
    if is_registered(s, id) {
        let k = conn_index(s, id);
        assert forall|i: int| 0 <= i < t.len() implies #[trigger] t[i].0 != id by {
            if i < k {
                assert(t[i] == s[i]);
            } else {
                assert(t[i] == s[i + 1]);
            }
        }
        if (forall|i: int| 0 <= i < s.len() && holds_number(s[i], number) ==> #[trigger] s[i].0 == id) {
            if let Some(c) = first_with_number(t, number) {
                let i = choose|i: int| 0 <= i < t.len() && #[trigger] t[i].0 == c && holds_number(t[i], number);
                if i < k {
                    assert(t[i] == s[i]);
                } else {
                    assert(t[i] == s[i + 1]);
                }
            }
        }
    } else {
        assert forall|i: int| 0 <= i < t.len() implies #[trigger] t[i].0 != id by {
            if t[i].0 == id {
                assert(is_registered(s, id));
            }
        }
    }
}

} // verus!
