use vstd::prelude::*;

verus! {

/// Lifecycle state of an instance, stored as a small integer code.
#[derive(PartialEq, Eq, Structural, Debug, Clone, Copy)]
pub enum InstanceState {
    /// Seen as a peer; never successfully probed.
    Discovered,
    /// Last probe succeeded.
    Alive,
    /// At least one consecutive probe failure, not yet confirmed dead.
    Dying,
    /// Sustained failures confirmed.
    Dead,
    /// At least one probe redirected elsewhere, not yet confirmed moved.
    Moving,
    /// Sustained redirects to the same target confirmed.
    Moved,
}

/// The distribution a next-check instant is drawn from.
#[derive(PartialEq, Eq, Structural, Debug, Clone, Copy)]
pub enum Cadence {
    /// Before the end of the current local day.
    Today,
    /// Within the next 24 hours.
    Daily,
    /// Within the next 7 days.
    Weekly,
}

impl InstanceState {
    /// The integer code under which the state is stored.
    pub open spec fn spec_code(self) -> u8 {
        match self {
            InstanceState::Discovered => 0,
            InstanceState::Alive => 1,
            InstanceState::Dying => 2,
            InstanceState::Dead => 3,
            InstanceState::Moving => 4,
            InstanceState::Moved => 5,
        }
    }

    /// The cadence of a check that is rescheduled without a verdict.
    pub open spec fn spec_retry_cadence(self) -> Cadence {
        match self {
            InstanceState::Dead | InstanceState::Moved => Cadence::Weekly,
            _ => Cadence::Daily,
        }
    }

    /// Decodes a stored state code; codes above 5 are not states.
    pub fn from(i: u8) -> (r: Option<Self>)
        ensures
            r is Some <==> i <= 5,
            r matches Some(s) ==> s.spec_code() == i,
    {
        match i {
            0 => Some(InstanceState::Discovered),
            1 => Some(InstanceState::Alive),
            2 => Some(InstanceState::Dying),
            3 => Some(InstanceState::Dead),
            4 => Some(InstanceState::Moving),
            5 => Some(InstanceState::Moved),
            _ => None,
        }
    }

    /// The code under which this state is stored.
    pub fn code(self) -> (r: u8)
        ensures
            r == self.spec_code(),
            r <= 5,
    {
        match self {
            InstanceState::Discovered => 0,
            InstanceState::Alive => 1,
            InstanceState::Dying => 2,
            InstanceState::Dead => 3,
            InstanceState::Moving => 4,
            InstanceState::Moved => 5,
        }
    }

    /// Cadence for rescheduling an instance whose probe itself failed: weekly
    /// for Dead and Moved instances, daily for the rest.
    pub fn retry_cadence(self) -> (r: Cadence)
        ensures
            r == self.spec_retry_cadence(),
    {
        match self {
            InstanceState::Dead | InstanceState::Moved => Cadence::Weekly,
            _ => Cadence::Daily,
        }
    }
}

} // verus!
