use vstd::prelude::*;
use vstd::string::StringExecFns;

use crate::groups::{
    has_session, new_group, session_index, Group, GroupView, ServiceError, Session,
};
use crate::messages::{
    outgoing_views, round_tag, service_reply_view, Outgoing, OutgoingView, Reply, ReplyView,
    Request, Round, ServiceCall, ServiceReply, ServiceReplyView,
};
use crate::phase::{Phase, PhaseMachine};
use crate::registry::{
    first_with_number, first_with_seat, is_registered, registry_insert, registry_remove,
    registry_seat, Conn, Registry,
};
use crate::run_id::new_uuid;
use crate::signup::{next_signup, signup_step};
use crate::store::{answer, round_complete, store_after_submit, store_insert, RoundStore, Slot};
use crate::types::{Entry, Parameters, PartySignup, Seat};

verus! {

/// The groups as plain values.
pub open spec fn group_views(v: Seq<Group>) -> Seq<GroupView> {
    v.map_values(|g: Group| g@)
}

pub open spec fn has_group(gs: Seq<GroupView>, u: Seq<char>) -> bool {
    exists|i: int| 0 <= i < gs.len() && gs[i].uuid == u
}

pub open spec fn group_index(gs: Seq<GroupView>, u: Seq<char>) -> int {
    choose|i: int| 0 <= i < gs.len() && gs[i].uuid == u
}

/// The group stored under `u`.
pub open spec fn group_at(gs: Seq<GroupView>, u: Seq<char>) -> GroupView {
    gs[group_index(gs, u)]
}

/// The groups after `g` is stored under its uuid, replacing one stored there.
pub open spec fn groups_insert(gs: Seq<GroupView>, g: GroupView) -> Seq<GroupView> {
    if has_group(gs, g.uuid) {
        gs.update(group_index(gs, g.uuid), g)
    } else {
        gs.push(g)
    }
}

pub open spec fn groups_wf(gs: Seq<GroupView>) -> bool {
    &&& forall|i: int, j: int| 0 <= i < j < gs.len() ==> gs[i].uuid != gs[j].uuid
    &&& forall|i: int| 0 <= i < gs.len() ==> (#[trigger] gs[i]).wf()
}

/// The commitment answers sent when a round completes, for parties `1..=k`: one for each
/// party whose seat in `run` is held by a live connection.
pub open spec fn deliveries_upto(
    reg: Seq<Conn>,
    s: Seq<Slot>,
    round: Seq<char>,
    run: Seq<char>,
    parties: nat,
    k: nat,
) -> Seq<OutgoingView>
    decreases k,
{
    if k == 0 {
        Seq::empty()
    } else {
        let prev = deliveries_upto(reg, s, round, run, parties, (k - 1) as nat);
        match first_with_seat(reg, k as u16, run) {
            Some(c) => prev.push(
                (
                    c,
                    None,
                    ReplyView::CommitmentAnswer { round, answer: answer(s, k, round, run, parties) },
                ),
            ),
            None => prev,
        }
    }
}

/// The commitment answers sent to the seated parties of `run` when a round completes.
pub open spec fn deliveries(
    reg: Seq<Conn>,
    s: Seq<Slot>,
    round: Seq<char>,
    run: Seq<char>,
    parties: nat,
) -> Seq<OutgoingView> {
    deliveries_upto(reg, s, round, run, parties, parties)
}

/// The coordination state shared by every connection.
pub struct Server {
    params: Parameters,
    registry: Registry,
    phase: PhaseMachine,
    signup: PartySignup,
    store: RoundStore,
    groups: Vec<Group>,
    next_conn_id: usize,
}

impl Server {
    pub closed spec fn params(&self) -> Parameters {
        self.params
    }

    /// The live connections, in registration order.
    pub closed spec fn connections(&self) -> Seq<Conn> {
        self.registry@
    }

    /// The seat handed out by the last signup.
    pub closed spec fn last_signup(&self) -> Seat {
        self.signup@
    }

    /// The entries of the current round.
    pub closed spec fn entries(&self) -> Seq<Slot> {
        self.store@
    }

    pub closed spec fn group_list(&self) -> Seq<GroupView> {
        group_views(self.groups@)
    }

    /// The id the next connection receives.
    pub closed spec fn next_id(&self) -> nat {
        self.next_conn_id as nat
    }

    pub closed spec fn phase_position(&self) -> nat {
        self.phase.position()
    }

    pub closed spec fn wf(&self) -> bool {
        &&& self.registry.wf()
        &&& self.phase.wf()
        &&& self.store.wf()
        &&& groups_wf(group_views(self.groups@))
        &&& self.next_conn_id >= 1
    }

    /// A server for runs of `params`, with no connections, no groups, an empty store
    /// and a signup counter at seat 0 of a new run.
    pub fn new(params: Parameters) -> (r: Server)
        ensures
            r.wf(),
            r.params() == params,
            r.connections() == Seq::<Conn>::empty(),
            r.entries() == Seq::<Slot>::empty(),
            r.group_list() == Seq::<GroupView>::empty(),
            r.last_signup().0 == 0,
            r.last_signup().1.len() == 36,
            r.next_id() == 1,
            r.phase_position() == 0,
    {
        let r = Server {
            params,
            registry: Registry::new(),
            phase: PhaseMachine::new(),
            signup: PartySignup { number: 0, uuid: new_uuid() },
            store: RoundStore::new(),
            groups: Vec::new(),
            next_conn_id: 1,
        };
        assert(group_views(r.groups@) =~= Seq::<GroupView>::empty());
        r
    }

    pub fn parameters(&self) -> (r: Parameters)
        ensures
            r == self.params(),
    {
        self.params
    }

    /// The current phase.
    pub fn phase(&self) -> (r: Phase)
        requires
            self.wf(),
        ensures
            r == crate::phase::phase_at(self.phase_position()),
    {
        self.phase.current()
    }

    /// Moves the phase cursor forward, holding at the last phase.
    pub fn advance_phase(&mut self) -> (r: Phase)
        requires
            old(self).wf(),
        ensures
            final(self).wf(),
            final(self).phase_position() == if old(self).phase_position() + 1
                < crate::phase::PHASE_COUNT {
                old(self).phase_position() + 1
            } else {
                old(self).phase_position()
            },
            r == crate::phase::phase_at(final(self).phase_position()),
            final(self).connections() == old(self).connections(),
            final(self).entries() == old(self).entries(),
            final(self).group_list() == old(self).group_list(),
    {
        self.phase.advance()
    }

    /// Registers a new connection under the next id and returns that id; `None` once
    /// the ids are used up.
    pub fn connect(&mut self) -> (r: Option<usize>)
        requires
            old(self).wf(),
        ensures
            final(self).wf(),
            old(self).next_id() < usize::MAX ==> r == Some(old(self).next_id() as usize)
                && final(self).connections() == registry_insert(old(self).connections(), r.unwrap())
                && final(self).next_id() == old(self).next_id() + 1,
            old(self).next_id() == usize::MAX ==> r.is_none() && final(self).connections()
                == old(self).connections() && final(self).next_id() == old(self).next_id(),
            final(self).entries() == old(self).entries(),
            final(self).group_list() == old(self).group_list(),
            final(self).last_signup() == old(self).last_signup(),
            final(self).params() == old(self).params(),
    {
        if self.next_conn_id == usize::MAX {
            return None;
        }
        let id = self.next_conn_id;
        self.next_conn_id = id + 1;
        self.registry.register(id);
        Some(id)
    }

    /// Forgets connection `id`; nothing happens when it is not registered.
    pub fn disconnect(&mut self, id: usize)
        requires
            old(self).wf(),
        ensures
            final(self).wf(),
            final(self).connections() == registry_remove(old(self).connections(), id),
            final(self).entries() == old(self).entries(),
            final(self).group_list() == old(self).group_list(),
            final(self).last_signup() == old(self).last_signup(),
            final(self).next_id() == old(self).next_id(),
            final(self).params() == old(self).params(),
    {
        self.registry.deregister(id);
    }

    /// Whether connection `id` is live.
    pub fn is_connected(&self, id: usize) -> (r: bool)
        requires
            self.wf(),
        ensures
            r == is_registered(self.connections(), id),
    {
        self.registry.contains(id)
    }

    /// The first live connection, in registration order, that holds party number `number`.
    pub fn conn_for_party(&self, number: u16) -> (r: Option<usize>)
        ensures
            r == first_with_number(self.connections(), number),
    {
        self.registry.find_by_party_number(number)
    }

    /// Seats connection `conn` at the seat following the last one handed out; `fresh`
    /// names the new run should the current run be full. `None`, with nothing changed,
    /// when `conn` is not live.
    pub fn party_signup_with(&mut self, conn: usize, fresh: String) -> (r: Option<PartySignup>)
        requires
            old(self).wf(),
        ensures
            final(self).wf(),
            r.is_some() == is_registered(old(self).connections(), conn),
            r.is_some() ==> {
                let seat = signup_step(old(self).last_signup(), old(self).params().parties, fresh@);
                &&& r.unwrap()@ == seat
                &&& final(self).last_signup() == seat
                &&& final(self).connections() == registry_seat(old(self).connections(), conn, seat)
            },
            r.is_none() ==> final(self).last_signup() == old(self).last_signup()
                && final(self).connections() == old(self).connections(),
            final(self).entries() == old(self).entries(),
            final(self).group_list() == old(self).group_list(),
            final(self).next_id() == old(self).next_id(),
            final(self).params() == old(self).params(),
    {
        if !self.registry.contains(conn) {
            return None;
        }
        let seat = next_signup(&self.signup, self.params.parties, fresh);
        self.signup = seat.duplicate();
        let _ = self.registry.seat(conn, seat.duplicate());
        Some(seat)
    }

    /// Seats connection `conn` in the current run, or as party 1 of a new run with a
    /// freshly minted uuid when the current run is full. `None`, with nothing changed,
    /// when `conn` is not live.
    pub fn party_signup(&mut self, conn: usize) -> (r: Option<PartySignup>)
        requires
            old(self).wf(),
        ensures
            final(self).wf(),
            r.is_some() == is_registered(old(self).connections(), conn),
            r.is_some() ==> {
                let prev = old(self).last_signup();
                &&& prev.0 < old(self).params().parties ==> r.unwrap()@ == ((prev.0 + 1) as u16, prev.1)
                &&& prev.0 >= old(self).params().parties ==> r.unwrap().number == 1
                    && r.unwrap().uuid@.len() == 36
                &&& final(self).last_signup() == r.unwrap()@
                &&& final(self).connections() == registry_seat(
                    old(self).connections(),
                    conn,
                    r.unwrap()@,
                )
            },
            r.is_none() ==> final(self).last_signup() == old(self).last_signup()
                && final(self).connections() == old(self).connections(),
            final(self).entries() == old(self).entries(),
            final(self).group_list() == old(self).group_list(),
            final(self).next_id() == old(self).next_id(),
            final(self).params() == old(self).params(),
    {
        let fresh = if self.signup.number < self.params.parties {
            String::new()
        } else {
            new_uuid()
        };
        self.party_signup_with(conn, fresh)
    }
    /// The commitment answers for every party `1..=parties` of `run` whose seat is held
    /// by a live connection, built from the current entries.
    fn commitment_answers(&self, round: Round, run: &String) -> (r: Vec<Outgoing>)
        requires
            self.wf(),
        ensures
            outgoing_views(r@) == deliveries(
                self.connections(),
                self.entries(),
                round_tag(round),
                run@,
                self.params().parties as nat,
            ),
    {
        let parties = self.params.parties;
        let mut out: Vec<Outgoing> = Vec::new();
        let mut p: u16 = 0;
        while p < parties
            invariant
                self.wf(),
                parties == self.params().parties,
                p <= parties,
                outgoing_views(out@) == deliveries_upto(
                    self.connections(),
                    self.entries(),
                    round_tag(round),
                    run@,
                    parties as nat,
                    p as nat,
                ),
            decreases parties - p,
        {
            p = p + 1;
            let ghost prev = out@;
            let answer = self.store.answer_for(p, round.tag(), run.as_str(), parties);
            match self.registry.find_seat(p, run) {
                Some(c) => {
                    let msg = Outgoing {
                        conn_id: c,
                        id: None,
                        reply: Reply::CommitmentAnswer { round: String::from_str(round.tag()), answer },
                    };
                    out.push(msg);
                    assert(outgoing_views(out@) =~= outgoing_views(prev).push(msg@));
                },
                None => {},
            }
        }
        out
    }

    /// Stores `entry` for `round` of run `run`. When the store then holds one entry per
    /// party, the round is complete: the commitment answers for the seated parties of
    /// `run` are returned and the store is emptied. Otherwise nothing is returned.
    pub fn submit_entry(&mut self, round: Round, entry: Entry, run: &String) -> (r: Vec<Outgoing>)
        requires
            old(self).wf(),
        ensures
            final(self).wf(),
            final(self).entries() == store_after_submit(
                old(self).entries(),
                entry.key@,
                entry.value@,
                old(self).params().parties,
            ),
            outgoing_views(r@) == if round_complete(
                store_insert(old(self).entries(), entry.key@, entry.value@),
                old(self).params().parties,
            ) {
                deliveries(
                    old(self).connections(),
                    store_insert(old(self).entries(), entry.key@, entry.value@),
                    round_tag(round),
                    run@,
                    old(self).params().parties as nat,
                )
            } else {
                Seq::<OutgoingView>::empty()
            },
            final(self).connections() == old(self).connections(),
            final(self).last_signup() == old(self).last_signup(),
            final(self).group_list() == old(self).group_list(),
            final(self).next_id() == old(self).next_id(),
            final(self).params() == old(self).params(),
    {
        self.store.insert(entry.key, entry.value);
        if self.store.len() == self.params.parties as usize {
            let out = self.commitment_answers(round, run);
            self.store.clear();
            out
        } else {
            let out: Vec<Outgoing> = Vec::new();
            assert(outgoing_views(out@) =~= Seq::<OutgoingView>::empty());
            out
        }
    }

    fn group_position(&self, u: &String) -> (r: Option<usize>)
        requires
            self.wf(),
        ensures
            r.is_none() ==> !has_group(self.group_list(), u@),
            r.is_some() ==> r.unwrap() < self.group_list().len() && self.group_list()[r.unwrap() as int].uuid
                == u@ && group_index(self.group_list(), u@) == r.unwrap(),
    {
        let mut i: usize = 0;
        while i < self.groups.len()
            invariant
                self.wf(),
                i <= self.groups.len(),
                forall|j: int| 0 <= j < i ==> self.group_list()[j].uuid != u@,
            decreases self.groups.len() - i,
        {
            if self.groups[i].uuid == *u {
                proof {
                    assert(self.group_list()[i as int].uuid == u@);
                    assert(has_group(self.group_list(), u@));
                }
                return Some(i);
            }
            i = i + 1;
        }
        None
    }

    /// Replaces the group at position `i` by `g`, which keeps its uuid.
    fn replace_group(&mut self, i: usize, g: Group)
        requires
            old(self).wf(),
            i < old(self).group_list().len(),
            g@.uuid == old(self).group_list()[i as int].uuid,
            g@.wf(),
        ensures
            final(self).wf(),
            final(self).group_list() == old(self).group_list().update(i as int, g@),
            final(self).connections() == old(self).connections(),
            final(self).entries() == old(self).entries(),
            final(self).last_signup() == old(self).last_signup(),
            final(self).next_id() == old(self).next_id(),
            final(self).params() == old(self).params(),
    {
        let ghost gv = g@;
        self.groups.set(i, g);
        assert(group_views(self.groups@) =~= group_views(old(self).groups@).update(i as int, gv));
    }

    /// Creates a group under uuid `uuid`, owned by `conn`, with `conn` as its only member.
    /// A group already stored under `uuid` is replaced. Returns the uuid.
    pub fn group_create_with(&mut self, conn: usize, label: String, params: Parameters, uuid: String) -> (r:
        String)
        requires
            old(self).wf(),
        ensures
            final(self).wf(),
            r@ == uuid@,
            final(self).group_list() == groups_insert(
                old(self).group_list(),
                new_group(uuid@, conn, label@, params),
            ),
            final(self).connections() == old(self).connections(),
            final(self).entries() == old(self).entries(),
            final(self).last_signup() == old(self).last_signup(),
            final(self).next_id() == old(self).next_id(),
            final(self).params() == old(self).params(),
    {
        let r = uuid.clone();
        let mut clients: Vec<usize> = Vec::new();
        clients.push(conn);
        let g = Group { uuid, owner: conn, label, params, clients, sessions: Vec::new() };
        proof {
            assert(g@.clients =~= seq![conn]);
            assert(g@.sessions =~= Seq::<(Seq<char>, Phase)>::empty());
            assert(g@ == new_group(r@, conn, g@.label, params));
        }
        match self.group_position(&r) {
            Some(i) => {
                self.replace_group(i, g);
            },
            None => {
                let ghost gv = g@;
                self.groups.push(g);
                assert(group_views(self.groups@) =~= group_views(old(self).groups@).push(gv));
            },
        }
        r
    }

    /// Creates a group with a freshly minted uuid, owned by `conn`, with `conn` as its
    /// only member. Returns the uuid.
    pub fn group_create(&mut self, conn: usize, label: String, params: Parameters) -> (r: String)
        requires
            old(self).wf(),
        ensures
            final(self).wf(),
            r@.len() == 36,
            final(self).group_list() == groups_insert(
                old(self).group_list(),
                new_group(r@, conn, label@, params),
            ),
            final(self).connections() == old(self).connections(),
            final(self).entries() == old(self).entries(),
            final(self).last_signup() == old(self).last_signup(),
            final(self).next_id() == old(self).next_id(),
            final(self).params() == old(self).params(),
    {
        let uuid = new_uuid();
        self.group_create_with(conn, label, params, uuid)
    }

    /// Adds `conn` to the members of group `u` unless it is one already, and returns a
    /// snapshot of the group; `NotFound`, with nothing changed, for an unknown group.
    pub fn group_join(&mut self, conn: usize, u: &String) -> (r: Result<Group, ServiceError>)
        requires
            old(self).wf(),
        ensures
            final(self).wf(),
            !has_group(old(self).group_list(), u@) ==> r == Err::<Group, ServiceError>(
                ServiceError::NotFound,
            ) && final(self).group_list() == old(self).group_list(),
            has_group(old(self).group_list(), u@) ==> r is Ok && r->Ok_0@ == group_at(
                old(self).group_list(),
                u@,
            ).joined(conn) && final(self).group_list() == old(self).group_list().update(
                group_index(old(self).group_list(), u@),
                r->Ok_0@,
            ),
            final(self).connections() == old(self).connections(),
            final(self).entries() == old(self).entries(),
            final(self).last_signup() == old(self).last_signup(),
            final(self).next_id() == old(self).next_id(),
            final(self).params() == old(self).params(),
    {
        match self.group_position(u) {
            None => Err(ServiceError::NotFound),
            Some(i) => {
                let mut g = self.groups[i].duplicate();
                g.join(conn);
                proof {
                    assert(self.group_list()[i as int].wf());
                }
                self.replace_group(i, g.duplicate());
                Ok(g)
            },
        }
    }

    /// Checks that group `u` exists and has `conn` as a member, and returns its position.
    fn member_group(&self, conn: usize, u: &String) -> (r: Result<usize, ServiceError>)
        requires
            self.wf(),
        ensures
            !has_group(self.group_list(), u@) ==> r == Err::<usize, ServiceError>(
                ServiceError::NotFound,
            ),
            has_group(self.group_list(), u@) && !group_at(self.group_list(), u@).clients.contains(
                conn,
            ) ==> r == Err::<usize, ServiceError>(ServiceError::Forbidden),
            has_group(self.group_list(), u@) && group_at(self.group_list(), u@).clients.contains(
                conn,
            ) ==> r == Ok::<usize, ServiceError>(group_index(self.group_list(), u@) as usize),
            r is Ok ==> r->Ok_0 < self.group_list().len() && r->Ok_0 == group_index(
                self.group_list(),
                u@,
            ) && group_at(self.group_list(), u@) == self.group_list()[r->Ok_0 as int],
    {
        match self.group_position(u) {
            None => Err(ServiceError::NotFound),
            Some(i) => {
                if self.groups[i].is_member(conn) {
                    Ok(i)
                } else {
                    Err(ServiceError::Forbidden)
                }
            },
        }
    }

    /// Creates session `session` (uuid and phase) in group `u` for member `conn`;
    /// `NotFound` for an unknown group and `Forbidden` for a connection that is not a
    /// member, with nothing changed.
    pub fn session_create_with(&mut self, conn: usize, u: &String, session: Session) -> (r: Result<
        Session,
        ServiceError,
    >)
        requires
            old(self).wf(),
        ensures
            final(self).wf(),
            !has_group(old(self).group_list(), u@) ==> r == Err::<Session, ServiceError>(
                ServiceError::NotFound,
            ),
            has_group(old(self).group_list(), u@) && !group_at(
                old(self).group_list(),
                u@,
            ).clients.contains(conn) ==> r == Err::<Session, ServiceError>(ServiceError::Forbidden),
            r is Err ==> final(self).group_list() == old(self).group_list(),
            has_group(old(self).group_list(), u@) && group_at(
                old(self).group_list(),
                u@,
            ).clients.contains(conn) ==> r is Ok && r->Ok_0@ == session@ && final(self).group_list()
                == old(self).group_list().update(
                group_index(old(self).group_list(), u@),
                group_at(old(self).group_list(), u@).with_session(session@),
            ),
            final(self).connections() == old(self).connections(),
            final(self).entries() == old(self).entries(),
            final(self).last_signup() == old(self).last_signup(),
            final(self).next_id() == old(self).next_id(),
            final(self).params() == old(self).params(),
    {
        match self.member_group(conn, u) {
            Err(e) => Err(e),
            Ok(i) => {
                let mut g = self.groups[i].duplicate();
                proof {
                    assert(self.group_list()[i as int].wf());
                    assert(g@ == group_at(self.group_list(), u@));
                }
                let r = session.duplicate();
                g.put_session(session);
                self.replace_group(i, g);
                Ok(r)
            },
        }
    }

    /// Creates a session with a freshly minted uuid for `phase` in group `u`, for member
    /// `conn`; `NotFound` for an unknown group and `Forbidden` for a connection that is
    /// not a member, with nothing changed.
    pub fn session_create(&mut self, conn: usize, u: &String, phase: Phase) -> (r: Result<
        Session,
        ServiceError,
    >)
        requires
            old(self).wf(),
        ensures
            final(self).wf(),
            !has_group(old(self).group_list(), u@) ==> r == Err::<Session, ServiceError>(
                ServiceError::NotFound,
            ),
            has_group(old(self).group_list(), u@) && !group_at(
                old(self).group_list(),
                u@,
            ).clients.contains(conn) ==> r == Err::<Session, ServiceError>(ServiceError::Forbidden),
            r is Err ==> final(self).group_list() == old(self).group_list(),
            has_group(old(self).group_list(), u@) && group_at(
                old(self).group_list(),
                u@,
            ).clients.contains(conn) ==> r is Ok && r->Ok_0.phase == phase && r->Ok_0.uuid@.len()
                == 36 && final(self).group_list() == old(self).group_list().update(
                group_index(old(self).group_list(), u@),
                group_at(old(self).group_list(), u@).with_session(r->Ok_0@),
            ),
            final(self).connections() == old(self).connections(),
            final(self).entries() == old(self).entries(),
            final(self).last_signup() == old(self).last_signup(),
            final(self).next_id() == old(self).next_id(),
            final(self).params() == old(self).params(),
    {
        match self.member_group(conn, u) {
            Err(e) => Err(e),
            Ok(_) => {
                let session = Session { uuid: new_uuid(), phase };
                self.session_create_with(conn, u, session)
            },
        }
    }

    /// A snapshot of session `s` of group `u`, for member `conn`; `NotFound` for an
    /// unknown group or session, `Forbidden` for a connection that is not a member.
    pub fn session_join(&self, conn: usize, u: &String, s: &String) -> (r: Result<
        Session,
        ServiceError,
    >)
        requires
            self.wf(),
        ensures
            !has_group(self.group_list(), u@) ==> r == Err::<Session, ServiceError>(
                ServiceError::NotFound,
            ),
            has_group(self.group_list(), u@) && !group_at(self.group_list(), u@).clients.contains(
                conn,
            ) ==> r == Err::<Session, ServiceError>(ServiceError::Forbidden),
            has_group(self.group_list(), u@) && group_at(self.group_list(), u@).clients.contains(
                conn,
            ) ==> {
                let ss = group_at(self.group_list(), u@).sessions;
                &&& !has_session(ss, s@) ==> r == Err::<Session, ServiceError>(
                    ServiceError::NotFound,
                )
                &&& has_session(ss, s@) ==> r is Ok && r->Ok_0@ == ss[session_index(ss, s@)]
            },
    {
        match self.member_group(conn, u) {
            Err(e) => Err(e),
            Ok(i) => {
                proof {
                    assert(self.group_list()[i as int].wf());
                    assert(self.groups@[i as int]@ == group_at(self.group_list(), u@));
                }
                match self.groups[i].session(s) {
                    Some(found) => Ok(found),
                    None => Err(ServiceError::NotFound),
                }
            },
        }
    }

    /// Answers request `id` of connection `conn` in the relay protocol: the reply to
    /// `conn` first, then any commitment answers that a completed round releases.
    pub fn handle_request(&mut self, conn: usize, id: usize, req: Request) -> (r: Vec<Outgoing>)
        requires
            old(self).wf(),
        ensures
            final(self).wf(),
            final(self).group_list() == old(self).group_list(),
            final(self).next_id() == old(self).next_id(),
            final(self).params() == old(self).params(),
            match req {
                Request::Parameters => {
                    &&& outgoing_views(r@) == seq![
                        (
                            conn,
                            Some(id),
                            ReplyView::Parameters {
                                parties: old(self).params().parties,
                                threshold: old(self).params().threshold,
                                conn_id: conn,
                            },
                        ),
                    ]
                    &&& final(self).connections() == old(self).connections()
                    &&& final(self).last_signup() == old(self).last_signup()
                    &&& final(self).entries() == old(self).entries()
                },
                Request::PartySignup => {
                    let prev = old(self).last_signup();
                    let parties = old(self).params().parties;
                    &&& final(self).entries() == old(self).entries()
                    &&& !is_registered(old(self).connections(), conn) ==> r@.len() == 0
                        && final(self).last_signup() == prev && final(self).connections()
                        == old(self).connections()
                    &&& is_registered(old(self).connections(), conn) ==> {
                        &&& outgoing_views(r@) == seq![
                            (conn, Some(id), ReplyView::Signup { seat: final(self).last_signup() }),
                        ]
                        &&& prev.0 < parties ==> final(self).last_signup() == (
                            (prev.0 + 1) as u16,
                            prev.1,
                        )
                        &&& prev.0 >= parties ==> final(self).last_signup().0 == 1
                            && final(self).last_signup().1.len() == 36
                        &&& final(self).connections() == registry_seat(
                            old(self).connections(),
                            conn,
                            final(self).last_signup(),
                        )
                    }
                },
                Request::SetRoundEntry { round, entry, uuid } => {
                    let stored = store_insert(old(self).entries(), entry.key@, entry.value@);
                    let ack = seq![(conn, Some(id), ReplyView::Ack)];
                    &&& final(self).entries() == store_after_submit(
                        old(self).entries(),
                        entry.key@,
                        entry.value@,
                        old(self).params().parties,
                    )
                    &&& outgoing_views(r@) == if round_complete(stored, old(self).params().parties) {
                        ack + deliveries(
                            old(self).connections(),
                            stored,
                            round_tag(round),
                            uuid@,
                            old(self).params().parties as nat,
                        )
                    } else {
                        ack
                    }
                    &&& final(self).connections() == old(self).connections()
                    &&& final(self).last_signup() == old(self).last_signup()
                },
            },
    {
        match req {
            Request::Parameters => {
                let mut out: Vec<Outgoing> = Vec::new();
                let msg = Outgoing {
                    conn_id: conn,
                    id: Some(id),
                    reply: Reply::Parameters {
                        parties: self.params.parties,
                        threshold: self.params.threshold,
                        conn_id: conn,
                    },
                };
                out.push(msg);
                assert(outgoing_views(out@) =~= seq![msg@]);
                out
            },
            Request::PartySignup => {
                let mut out: Vec<Outgoing> = Vec::new();
                match self.party_signup(conn) {
                    Some(seat) => {
                        let msg = Outgoing {
                            conn_id: conn,
                            id: Some(id),
                            reply: Reply::Signup { party_signup: seat },
                        };
                        out.push(msg);
                        assert(outgoing_views(out@) =~= seq![msg@]);
                    },
                    None => {},
                }
                out
            },
            Request::SetRoundEntry { round, entry, uuid } => {
                let mut out: Vec<Outgoing> = Vec::new();
                let ack = Outgoing { conn_id: conn, id: Some(id), reply: Reply::Ack };
                out.push(ack);
                let ghost first = out@;
                let mut answers = self.submit_entry(round, entry, &uuid);
                out.append(&mut answers);
                assert(outgoing_views(out@) =~= outgoing_views(first) + outgoing_views(
                    out@.subrange(1, out@.len() as int),
                ));
                assert(outgoing_views(first) =~= seq![(conn, Some(id), ReplyView::Ack)]);
                out
            },
        }
    }

    /// Answers a call of connection `conn` in the group/session protocol.
    pub fn handle_call(&mut self, conn: usize, call: ServiceCall) -> (r: Result<ServiceReply, ServiceError>)
        requires
            old(self).wf(),
        ensures
            final(self).wf(),
            final(self).connections() == old(self).connections(),
            final(self).entries() == old(self).entries(),
            final(self).last_signup() == old(self).last_signup(),
            final(self).next_id() == old(self).next_id(),
            final(self).params() == old(self).params(),
            r is Err ==> final(self).group_list() == old(self).group_list(),
            match call {
                ServiceCall::GroupCreate { label, params } => match service_reply_view(r) {
                    Ok(ServiceReplyView::GroupId(u)) => u.len() == 36 && final(self).group_list()
                        == groups_insert(old(self).group_list(), new_group(u, conn, label@, params)),
                    _ => false,
                },
                ServiceCall::GroupJoin { group } => if has_group(old(self).group_list(), group@) {
                    let g = group_at(old(self).group_list(), group@).joined(conn);
                    &&& service_reply_view(r) == Ok::<ServiceReplyView, ServiceError>(
                        ServiceReplyView::Group(g),
                    )
                    &&& final(self).group_list() == old(self).group_list().update(
                        group_index(old(self).group_list(), group@),
                        g,
                    )
                } else {
                    r == Err::<ServiceReply, ServiceError>(ServiceError::NotFound)
                },
                ServiceCall::SessionCreate { group, phase } => if !has_group(
                    old(self).group_list(),
                    group@,
                ) {
                    r == Err::<ServiceReply, ServiceError>(ServiceError::NotFound)
                } else if !group_at(old(self).group_list(), group@).clients.contains(conn) {
                    r == Err::<ServiceReply, ServiceError>(ServiceError::Forbidden)
                } else {
                    match service_reply_view(r) {
                        Ok(ServiceReplyView::Session(s)) => s.1 == phase && s.0.len() == 36
                            && final(self).group_list() == old(self).group_list().update(
                            group_index(old(self).group_list(), group@),
                            group_at(old(self).group_list(), group@).with_session(s),
                        ),
                        _ => false,
                    }
                },
                ServiceCall::SessionJoin { group, session, phase: _ } => {
                    let ss = group_at(old(self).group_list(), group@).sessions;
                    &&& final(self).group_list() == old(self).group_list()
                    &&& if !has_group(old(self).group_list(), group@) {
                        r == Err::<ServiceReply, ServiceError>(ServiceError::NotFound)
                    } else if !group_at(old(self).group_list(), group@).clients.contains(conn) {
                        r == Err::<ServiceReply, ServiceError>(ServiceError::Forbidden)
                    } else if !has_session(ss, session@) {
                        r == Err::<ServiceReply, ServiceError>(ServiceError::NotFound)
                    } else {
                        service_reply_view(r) == Ok::<ServiceReplyView, ServiceError>(
                            ServiceReplyView::Session(ss[session_index(ss, session@)]),
                        )
                    }
                },
            },
    {
        match call {
            ServiceCall::GroupCreate { label, params } => {
                Ok(ServiceReply::GroupId(self.group_create(conn, label, params)))
            },
            ServiceCall::GroupJoin { group } => match self.group_join(conn, &group) {
                Ok(g) => Ok(ServiceReply::Group(g)),
                Err(e) => Err(e),
            },
            ServiceCall::SessionCreate { group, phase } => match self.session_create(
                conn,
                &group,
                phase,
            ) {
                Ok(s) => Ok(ServiceReply::Session(s)),
                Err(e) => Err(e),
            },
            ServiceCall::SessionJoin { group, session, phase: _ } => match self.session_join(
                conn,
                &group,
                &session,
            ) {
                Ok(s) => Ok(ServiceReply::Session(s)),
                Err(e) => Err(e),
            },
        }
    }

}

} // verus!
