use vstd::prelude::*;

verus! {

/// Size of a run: `parties` seats, of which `threshold + 1` are needed to sign.
#[derive(Clone, Copy, Debug, PartialEq, Eq, Structural)]
pub struct Parameters {
    pub parties: u16,
    pub threshold: u16,
}

/// A connection's seat in one run: its party number and the run's uuid.
#[derive(Clone, Debug)]
pub struct PartySignup {
    pub number: u16,
    pub uuid: String,
}

/// The seat of a `PartySignup` as plain values: party number and run uuid.
pub type Seat = (u16, Seq<char>);

impl View for PartySignup {
    type V = Seat;

    open spec fn view(&self) -> Seat {
        (self.number, self.uuid@)
    }
}

impl PartySignup {
    /// A copy with the same number and uuid.
    pub fn duplicate(&self) -> (r: PartySignup)
        ensures
            r@ == self@,
    {
        PartySignup { number: self.number, uuid: self.uuid.clone() }
    }
}

/// An opaque payload stored by a peer under a key of its choosing.
#[derive(Clone, Debug)]
pub struct Entry {
    pub key: String,
    pub value: String,
}

} // verus!
