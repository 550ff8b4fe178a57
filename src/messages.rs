use vstd::prelude::*;

use crate::groups::{Group, GroupView, ServiceError, Session};
use crate::phase::Phase;
use crate::store::texts;
use crate::types::{Entry, Parameters, PartySignup, Seat};

verus! {

/// The two rounds whose commitments are relayed.
#[derive(Clone, Copy, Debug, PartialEq, Eq, Structural)]
pub enum Round {
    One,
    Two,
}

/// The tag that names a round in store keys and in answers.
pub open spec fn round_tag(r: Round) -> Seq<char> {
    match r {
        Round::One => "round1"@,
        Round::Two => "round2"@,
    }
}

impl Round {
    pub fn tag(&self) -> (r: &'static str)
        ensures
            r@ == round_tag(*self),
    {
        match self {
            Round::One => "round1",
            Round::Two => "round2",
        }
    }
}

/// A decoded request of the relay protocol.
pub enum Request {
    /// Ask for the server's parameters.
    Parameters,
    /// Ask for a seat in the current run.
    PartySignup,
    /// Store a commitment for `round` of run `uuid`.
    SetRoundEntry { round: Round, entry: Entry, uuid: String },
}

/// A decoded call of the group/session protocol.
pub enum ServiceCall {
    GroupCreate { label: String, params: Parameters },
    GroupJoin { group: String },
    SessionCreate { group: String, phase: Phase },
    SessionJoin { group: String, session: String, phase: Phase },
}

/// The result of a successful group/session call.
pub enum ServiceReply {
    /// The uuid of a newly created group.
    GroupId(String),
    /// A snapshot of a group.
    Group(Group),
    /// A snapshot of a session.
    Session(Session),
}

/// The payload of a message to a connection.
pub enum Reply {
    Parameters { parties: u16, threshold: u16, conn_id: usize },
    Signup { party_signup: PartySignup },
    Ack,
    CommitmentAnswer { round: String, answer: Vec<String> },
}

/// A reply as plain values.
pub enum ReplyView {
    Parameters { parties: u16, threshold: u16, conn_id: usize },
    Signup { seat: Seat },
    Ack,
    CommitmentAnswer { round: Seq<char>, answer: Seq<Seq<char>> },
}

impl View for Reply {
    type V = ReplyView;

    open spec fn view(&self) -> ReplyView {
        match self {
            Reply::Parameters { parties, threshold, conn_id } => ReplyView::Parameters {
                parties: *parties,
                threshold: *threshold,
                conn_id: *conn_id,
            },
            Reply::Signup { party_signup } => ReplyView::Signup { seat: party_signup@ },
            Reply::Ack => ReplyView::Ack,
            Reply::CommitmentAnswer { round, answer } => ReplyView::CommitmentAnswer {
                round: round@,
                answer: texts(answer@),
            },
        }
    }
}

/// A message for connection `conn_id`; `id` is the request it answers, `None` for a
/// notification.
pub struct Outgoing {
    pub conn_id: usize,
    pub id: Option<usize>,
    pub reply: Reply,
}

/// A message as plain values: target connection, request id and payload.
pub type OutgoingView = (usize, Option<usize>, ReplyView);

impl View for Outgoing {
    type V = OutgoingView;

    open spec fn view(&self) -> OutgoingView {
        (self.conn_id, self.id, self.reply@)
    }
}

/// The messages as plain values.
pub open spec fn outgoing_views(v: Seq<Outgoing>) -> Seq<OutgoingView> {
    v.map_values(|o: Outgoing| o@)
}

/// A service reply as plain values.
pub enum ServiceReplyView {
    GroupId(Seq<char>),
    Group(GroupView),
    Session((Seq<char>, Phase)),
}

pub open spec fn service_reply_view(r: Result<ServiceReply, ServiceError>) -> Result<
    ServiceReplyView,
    ServiceError,
> {
    match r {
        Ok(ServiceReply::GroupId(u)) => Ok(ServiceReplyView::GroupId(u@)),
        Ok(ServiceReply::Group(g)) => Ok(ServiceReplyView::Group(g@)),
        Ok(ServiceReply::Session(s)) => Ok(ServiceReplyView::Session(s@)),
        Err(e) => Err(e),
    }
}

} // verus!
