use vstd::prelude::*;

use crate::phase::Phase;
use crate::types::Parameters;

verus! {

/// Why a group or session request was refused.
#[derive(Clone, Copy, Debug, PartialEq, Eq, Structural)]
pub enum ServiceError {
    /// The group or session does not exist.
    NotFound,
    /// The connection is not a member of the group.
    Forbidden,
}

/// One phase of execution inside a group.
#[derive(Clone, Debug)]
pub struct Session {
    pub uuid: String,
    pub phase: Phase,
}

impl View for Session {
    type V = (Seq<char>, Phase);

    open spec fn view(&self) -> (Seq<char>, Phase) {
        (self.uuid@, self.phase)
    }
}

impl Session {
    pub fn duplicate(&self) -> (r: Session)
        ensures
            r@ == self@,
    {
        Session { uuid: self.uuid.clone(), phase: self.phase }
    }
}

/// The sessions as plain values.
pub open spec fn session_views(v: Seq<Session>) -> Seq<(Seq<char>, Phase)> {
    v.map_values(|s: Session| s@)
}

/// A group as plain values.
pub struct GroupView {
    pub uuid: Seq<char>,
    pub owner: usize,
    pub label: Seq<char>,
    pub params: Parameters,
    pub clients: Seq<usize>,
    pub sessions: Seq<(Seq<char>, Phase)>,
}

/// A set of connections that coordinate runs together, with their sessions.
#[derive(Clone, Debug)]
pub struct Group {
    pub uuid: String,
    pub owner: usize,
    pub label: String,
    pub params: Parameters,
    pub clients: Vec<usize>,
    pub sessions: Vec<Session>,
}

impl View for Group {
    type V = GroupView;

    open spec fn view(&self) -> GroupView {
        GroupView {
            uuid: self.uuid@,
            owner: self.owner,
            label: self.label@,
            params: self.params,
            clients: self.clients@,
            sessions: session_views(self.sessions@),
        }
    }
}

/// The member list after `c` joins: unchanged when `c` is already a member.
pub open spec fn join_members(m: Seq<usize>, c: usize) -> Seq<usize> {
    if m.contains(c) {
        m
    } else {
        m.push(c)
    }
}

pub open spec fn has_session(ss: Seq<(Seq<char>, Phase)>, u: Seq<char>) -> bool {
    exists|i: int| 0 <= i < ss.len() && ss[i].0 == u
}

pub open spec fn session_index(ss: Seq<(Seq<char>, Phase)>, u: Seq<char>) -> int {
    choose|i: int| 0 <= i < ss.len() && ss[i].0 == u
}

/// The sessions after `s` is stored under its uuid, replacing one stored there.
pub open spec fn session_insert(ss: Seq<(Seq<char>, Phase)>, s: (Seq<char>, Phase)) -> Seq<
    (Seq<char>, Phase),
> {
    if has_session(ss, s.0) {
        ss.update(session_index(ss, s.0), s)
    } else {
        ss.push(s)
    }
}

pub open spec fn session_uuids_unique(ss: Seq<(Seq<char>, Phase)>) -> bool {
    forall|i: int, j: int| 0 <= i < j < ss.len() ==> ss[i].0 != ss[j].0
}

/// A freshly created group: its owner is its only member and it has no sessions.
pub open spec fn new_group(uuid: Seq<char>, owner: usize, label: Seq<char>, params: Parameters) -> GroupView {
    GroupView {
        uuid,
        owner,
        label,
        params,
        clients: seq![owner],
        sessions: Seq::empty(),
    }
}

impl GroupView {
    pub open spec fn wf(&self) -> bool {
        session_uuids_unique(self.sessions)
    }

    /// The group after connection `c` joins it.
    pub open spec fn joined(self, c: usize) -> GroupView {
        GroupView { clients: join_members(self.clients, c), ..self }
    }

    /// The group after session `s` is stored in it.
    pub open spec fn with_session(self, s: (Seq<char>, Phase)) -> GroupView {
        GroupView { sessions: session_insert(self.sessions, s), ..self }
    }
}

fn copy_ids(v: &Vec<usize>) -> (r: Vec<usize>)
    ensures
        r@ == v@,
{
    let mut r: Vec<usize> = Vec::new();
    let mut i: usize = 0;
    while i < v.len()
        invariant
            i <= v.len(),
            r@ == v@.subrange(0, i as int),
        decreases v.len() - i,
    {
        r.push(v[i]);
        i = i + 1;
        assert(r@ =~= v@.subrange(0, i as int));
    }
    assert(v@.subrange(0, v@.len() as int) =~= v@);
    r
}

fn contains_id(v: &Vec<usize>, c: usize) -> (r: bool)
    ensures
        r == v@.contains(c),
{
    let mut i: usize = 0;
    while i < v.len()
        invariant
            i <= v.len(),
            forall|j: int| 0 <= j < i ==> v@[j] != c,
        decreases v.len() - i,
    {
        if v[i] == c {
            return true;
        }
        i = i + 1;
    }
    false
}

impl Group {
    pub open spec fn wf(&self) -> bool {
        self@.wf()
    }

    /// A copy of the group.
    pub fn duplicate(&self) -> (r: Group)
        ensures
            r@ == self@,
    {
        let mut sessions: Vec<Session> = Vec::new();
        let mut i: usize = 0;
        while i < self.sessions.len()
            invariant
                i <= self.sessions.len(),
                session_views(sessions@) == self@.sessions.subrange(0, i as int),
            decreases self.sessions.len() - i,
        {
            let d = self.sessions[i].duplicate();
            let ghost before = sessions@;
            sessions.push(d);
            assert(sessions@ == before.push(d));
            assert(session_views(sessions@) =~= session_views(before).push(d@));
            assert(self@.sessions[i as int] == self.sessions@[i as int]@);
            i = i + 1;
            assert(session_views(sessions@) =~= self@.sessions.subrange(0, i as int));
        }
        assert(self@.sessions.subrange(0, self@.sessions.len() as int) =~= self@.sessions);
        let r = Group {
            uuid: self.uuid.clone(),
            owner: self.owner,
            label: self.label.clone(),
            params: self.params,
            clients: copy_ids(&self.clients),
            sessions,
        };
        assert(r@.sessions =~= self@.sessions);
        r
    }

    /// Whether connection `c` is a member.
    pub fn is_member(&self, c: usize) -> (r: bool)
        ensures
            r == self@.clients.contains(c),
    {
        contains_id(&self.clients, c)
    }

    /// Adds connection `c` to the members unless it is one already.
    pub fn join(&mut self, c: usize)
        ensures
            final(self)@ == old(self)@.joined(c),
    {
        if !contains_id(&self.clients, c) {
            self.clients.push(c);
        }
        assert(self@.clients =~= join_members(old(self)@.clients, c));
        assert(self@.sessions =~= old(self)@.sessions);
    }

    fn session_position(&self, u: &String) -> (r: Option<usize>)
        requires
            self.wf(),
        ensures
            r.is_none() ==> !has_session(self@.sessions, u@),
            r.is_some() ==> r.unwrap() < self@.sessions.len() && self@.sessions[r.unwrap() as int].0
                == u@ && session_index(self@.sessions, u@) == r.unwrap(),
    {
        let mut i: usize = 0;
        while i < self.sessions.len()
            invariant
                self.wf(),
                i <= self.sessions.len(),
                forall|j: int| 0 <= j < i ==> self@.sessions[j].0 != u@,
            decreases self.sessions.len() - i,
        {
            if self.sessions[i].uuid == *u {
                proof {
                    assert(self@.sessions[i as int].0 == u@);
                    assert(has_session(self@.sessions, u@));
                }
                return Some(i);
            }
            i = i + 1;
        }
        None
    }

    /// The session stored under `u`, if any.
    pub fn session(&self, u: &String) -> (r: Option<Session>)
        requires
            self.wf(),
        ensures
            r.is_some() == has_session(self@.sessions, u@),
            r.is_some() ==> r.unwrap()@ == self@.sessions[session_index(self@.sessions, u@)],
    {
        match self.session_position(u) {
            Some(i) => Some(self.sessions[i].duplicate()),
            None => None,
        }
    }

    /// Stores session `s` under its uuid, replacing one stored there.
    pub fn put_session(&mut self, s: Session)
        requires
            old(self).wf(),
        ensures
            final(self).wf(),
            final(self)@ == old(self)@.with_session(s@),
    {
        let ghost sv = s@;
        match self.session_position(&s.uuid) {
            Some(i) => {
                self.sessions.set(i, s);
                assert(self@.sessions =~= old(self)@.sessions.update(i as int, sv));
            },
            None => {
                self.sessions.push(s);
                assert(self@.sessions =~= old(self)@.sessions.push(sv));
            },
        }
        assert(self@.clients =~= old(self)@.clients);
    }
}

/// Joining a group is idempotent: a second join by the same connection changes nothing,
/// and in particular not the number of members.
pub proof fn lemma_join_idempotent(g: GroupView, c: usize)
    ensures
        g.joined(c).joined(c) == g.joined(c),
        g.joined(c).clients.len() == g.joined(c).joined(c).clients.len(),
        g.joined(c).clients.contains(c),
{
    if !g.clients.contains(c) {
        assert(g.clients.push(c)[g.clients.len() as int] == c);
    }
}

} // verus!
