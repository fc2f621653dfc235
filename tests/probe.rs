use fediverse_observer::checker::{apply_probe_action, CheckError};
use fediverse_observer::machine::SideData;
use fediverse_observer::probe::{CheckerResponse, Phase, ProbeAction, ProbeReport, ProbeSession};
use fediverse_observer::store::{Store, BOOTSTRAP_HOST};
use fediverse_observer::InstanceState;

const NOW: i64 = 1_700_000_000;
const DAY: i64 = 86400;

fn host(s: &str) -> String {
    s.to_string()
}

fn seeded(name: &str) -> Store {
    let mut store = Store::new();
    store.init(NOW).unwrap();
    store.add_instance(&host(BOOTSTRAP_HOST), &host(name), NOW, 0).unwrap();
    store
}

/// Feeds a probe's output to a session and applies each action, stopping at
/// the first error, as the orchestrator does.
fn run_probe(store: &mut Store, target: &str, lines: Vec<CheckerResponse>) -> Result<u64, CheckError> {
    let mut session = ProbeSession::new();
    for line in lines {
        if session.phase() == Phase::Done {
            break;
        }
        let action = session.on_line(line);
        apply_probe_action(store, &host(target), action, NOW, 0)?;
    }
    if session.phase() != Phase::Done {
        let action = session.on_end();
        apply_probe_action(store, &host(target), action, NOW, 0)?;
    }
    Ok(session.peers())
}

#[test]
fn alive_with_peers() {
    let mut store = seeded("a.example");
    let lines = vec![
        CheckerResponse::State(ProbeReport::Alive),
        CheckerResponse::Peer(host("b.example")),
        CheckerResponse::Peer(host("c.example")),
    ];
    assert_eq!(run_probe(&mut store, "a.example", lines), Ok(2));
    let a = store.find(&host("a.example")).unwrap();
    let ra = store.get(a).unwrap();
    assert_eq!(ra.lifecycle.state, InstanceState::Alive);
    assert!(NOW < ra.next_check && ra.next_check <= NOW + DAY);
    for peer in ["b.example", "c.example"] {
        let id = store.find(&host(peer)).unwrap();
        let r = store.get(id).unwrap();
        assert_eq!(r.lifecycle.state, InstanceState::Discovered);
        assert_eq!(r.discovered_via, Some(a));
        // NOW is 22:13:20 UTC; the day ends 6400 s later.
        assert!(NOW < r.next_check && r.next_check < NOW + 6400);
    }
}

#[test]
fn empty_output_marks_dead() {
    let mut store = seeded("x.example");
    assert_eq!(run_probe(&mut store, "x.example", vec![]), Ok(0));
    let x = store.find(&host("x.example")).unwrap();
    let r = store.get(x).unwrap();
    assert_eq!(r.lifecycle.state, InstanceState::Dying);
    assert_eq!(r.lifecycle.side, SideData::Dying { since: NOW, failed_checks_count: 1 });
}

#[test]
fn moved_report_marks_moving() {
    let mut store = seeded("y.example");
    let lines = vec![CheckerResponse::State(ProbeReport::Moved(host("z.example")))];
    assert_eq!(run_probe(&mut store, "y.example", lines), Ok(0));
    let y = store.find(&host("y.example")).unwrap();
    let z = store.find(&host("z.example")).unwrap();
    assert_eq!(store.get(y).unwrap().lifecycle.state, InstanceState::Moving);
    assert_eq!(
        store.get(y).unwrap().lifecycle.side,
        SideData::Moving { since: NOW, redirects_count: 1, moving_to: z }
    );
    assert_eq!(store.get(z).unwrap().lifecycle.state, InstanceState::Discovered);
}

#[test]
fn moving_report_only_reschedules() {
    let mut store = seeded("y.example");
    let lines = vec![CheckerResponse::State(ProbeReport::Moving(host("z.example")))];
    assert_eq!(run_probe(&mut store, "y.example", lines), Ok(0));
    let y = store.find(&host("y.example")).unwrap();
    assert_eq!(store.get(y).unwrap().lifecycle.state, InstanceState::Discovered);
    assert_eq!(store.get(y).unwrap().last_check, None);
    assert_eq!(store.find(&host("z.example")), None);
}

#[test]
fn peer_first_is_a_violation_and_marks_dead() {
    let mut store = seeded("x.example");
    let lines = vec![CheckerResponse::Peer(host("b.example"))];
    assert_eq!(run_probe(&mut store, "x.example", lines), Err(CheckError::ProtocolViolation));
    let x = store.find(&host("x.example")).unwrap();
    assert_eq!(store.get(x).unwrap().lifecycle.state, InstanceState::Dying);
    assert_eq!(store.find(&host("b.example")), None);
}

#[test]
fn state_after_alive_is_a_violation() {
    let mut store = seeded("a.example");
    let lines = vec![
        CheckerResponse::State(ProbeReport::Alive),
        CheckerResponse::Peer(host("b.example")),
        CheckerResponse::State(ProbeReport::Alive),
        CheckerResponse::Peer(host("c.example")),
    ];
    assert_eq!(run_probe(&mut store, "a.example", lines), Err(CheckError::ProtocolViolation));
    assert!(store.find(&host("b.example")).is_some());
    assert_eq!(store.find(&host("c.example")), None);
    let a = store.find(&host("a.example")).unwrap();
    assert_eq!(store.get(a).unwrap().lifecycle.state, InstanceState::Dying);
    assert_eq!(
        store.get(a).unwrap().lifecycle.side,
        SideData::Dying { since: NOW, failed_checks_count: 1 }
    );
}

#[test]
fn session_phases() {
    let mut s = ProbeSession::new();
    assert_eq!(s.phase(), Phase::AwaitingState);
    assert_eq!(s.on_line(CheckerResponse::State(ProbeReport::Alive)), ProbeAction::MarkAlive);
    assert_eq!(s.phase(), Phase::ReadingPeers);
    assert_eq!(s.on_line(CheckerResponse::Peer(host("p.example"))), ProbeAction::AddPeer(host("p.example")));
    assert_eq!(s.peers(), 1);
    assert_eq!(s.on_end(), ProbeAction::Finish);
    assert_eq!(s.phase(), Phase::Done);

    let mut s = ProbeSession::new();
    assert_eq!(
        s.on_line(CheckerResponse::State(ProbeReport::Moved(host("t.example")))),
        ProbeAction::MarkMoved(host("t.example"))
    );
    assert_eq!(s.phase(), Phase::Done);

    let mut s = ProbeSession::new();
    assert_eq!(s.on_end(), ProbeAction::MarkDead);

    let mut s = ProbeSession::new();
    assert_eq!(s.on_line(CheckerResponse::Peer(host("p.example"))), ProbeAction::MarkDeadForViolation);
    assert_eq!(s.phase(), Phase::Done);

    let mut s = ProbeSession::new();
    assert_eq!(
        s.on_line(CheckerResponse::State(ProbeReport::Moving(host("t.example")))),
        ProbeAction::Reschedule
    );
    assert_eq!(s.phase(), Phase::Done);
}
