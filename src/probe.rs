use vstd::prelude::*;

verus! {

/// The verdict a probe reports on its first line.
#[derive(PartialEq, Eq, Debug)]
pub enum ProbeReport {
    /// The instance answered.
    Alive,
    /// The instance is redirecting to the given host, not yet for good.
    Moving(String),
    /// The instance has moved to the given host.
    Moved(String),
}

/// One line of a probe's output.
#[derive(PartialEq, Eq, Debug)]
pub enum CheckerResponse {
    /// The verdict, which must come first.
    State(ProbeReport),
    /// A peer advertised by the instance.
    Peer(String),
}

/// What the orchestrator does in answer to one event of a probe's output.
#[derive(PartialEq, Eq, Debug)]
pub enum ProbeAction {
    /// The probe printed nothing: mark the target dead.
    MarkDead,
    /// The output broke the protocol (a peer came first, or a verdict came
    /// after the first line): mark the target dead and report the violation.
    MarkDeadForViolation,
    /// Mark the target alive; peers follow.
    MarkAlive,
    /// The target is redirecting: only reschedule it.
    Reschedule,
    /// Mark the target moved to the given host.
    MarkMoved(String),
    /// Add the given host as a peer of the target.
    AddPeer(String),
    /// The peer list ended.
    Finish,
}

/// Where a session stands in the probe's output.
#[derive(PartialEq, Eq, Structural, Debug, Clone, Copy)]
pub enum Phase {
    /// Nothing read yet; the verdict is expected.
    AwaitingState,
    /// The verdict was Alive; peers are expected until the end.
    ReadingPeers,
    /// No more output is wanted.
    Done,
}

/// The phase and action after `line` is read in `phase`.
pub open spec fn spec_on_line(phase: Phase, line: CheckerResponse) -> (Phase, ProbeAction) {
    match phase {
        Phase::ReadingPeers => match line {
            CheckerResponse::Peer(p) => (Phase::ReadingPeers, ProbeAction::AddPeer(p)),
            CheckerResponse::State(_) => (Phase::Done, ProbeAction::MarkDeadForViolation),
        },
        _ => match line {
            CheckerResponse::Peer(_) => (Phase::Done, ProbeAction::MarkDeadForViolation),
            CheckerResponse::State(ProbeReport::Alive) => (Phase::ReadingPeers, ProbeAction::MarkAlive),
            CheckerResponse::State(ProbeReport::Moving(_)) => (Phase::Done, ProbeAction::Reschedule),
            CheckerResponse::State(ProbeReport::Moved(to)) => (Phase::Done, ProbeAction::MarkMoved(to)),
        },
    }
}

/// The action when the output ends in `phase`.
pub open spec fn spec_on_end(phase: Phase) -> ProbeAction {
    match phase {
        Phase::ReadingPeers => ProbeAction::Finish,
        _ => ProbeAction::MarkDead,
    }
}

/// Reads the output of one probe, line by line, and says what to do with each.
pub struct ProbeSession {
    phase: Phase,
    peers: u64,
}

impl ProbeSession {
    /// Current phase.
    pub closed spec fn spec_phase(&self) -> Phase {
        self.phase
    }

    /// Number of peers read so far.
    pub closed spec fn spec_peers(&self) -> u64 {
        self.peers
    }

    /// A session that has read nothing.
    pub fn new() -> (r: ProbeSession)
        ensures
            r.spec_phase() == Phase::AwaitingState,
            r.spec_peers() == 0,
    {
        ProbeSession { phase: Phase::AwaitingState, peers: 0 }
    }

    /// Current phase.
    pub fn phase(&self) -> (r: Phase)
        ensures
            r == self.spec_phase(),
    {
        self.phase
    }

    /// Number of peers read so far.
    pub fn peers(&self) -> (r: u64)
        ensures
            r == self.spec_peers(),
    {
        self.peers
    }

    /// Takes one line of output.
    pub fn on_line(&mut self, line: CheckerResponse) -> (r: ProbeAction)
        requires
            old(self).spec_phase() != Phase::Done,
        ensures
            (final(self).spec_phase(), r) == spec_on_line(old(self).spec_phase(), line),
            final(self).spec_peers() == if r is AddPeer && old(self).spec_peers() < u64::MAX {
                (old(self).spec_peers() + 1) as u64
            } else {
                old(self).spec_peers()
            },
    {
        match self.phase {
            Phase::ReadingPeers => match line {
                CheckerResponse::Peer(p) => {
                    self.peers = self.peers.saturating_add(1);
                    ProbeAction::AddPeer(p)
                },
                CheckerResponse::State(_) => {
                    self.phase = Phase::Done;
                    ProbeAction::MarkDeadForViolation
                },
            },
            _ => match line {
                CheckerResponse::Peer(_) => {
                    self.phase = Phase::Done;
                    ProbeAction::MarkDeadForViolation
                },
                CheckerResponse::State(ProbeReport::Alive) => {
                    self.phase = Phase::ReadingPeers;
                    ProbeAction::MarkAlive
                },
                CheckerResponse::State(ProbeReport::Moving(_)) => {
                    self.phase = Phase::Done;
                    ProbeAction::Reschedule
                },
                CheckerResponse::State(ProbeReport::Moved(to)) => {
                    self.phase = Phase::Done;
                    ProbeAction::MarkMoved(to)
                },
            },
        }
    }

    /// Takes the end of the output.
    pub fn on_end(&mut self) -> (r: ProbeAction)
        requires
            old(self).spec_phase() != Phase::Done,
        ensures
            r == spec_on_end(old(self).spec_phase()),
            final(self).spec_phase() == Phase::Done,
            final(self).spec_peers() == old(self).spec_peers(),
    {
        let r = match self.phase {
            Phase::ReadingPeers => ProbeAction::Finish,
            _ => ProbeAction::MarkDead,
        };
        self.phase = Phase::Done;
        r
    }
}

} // verus!
