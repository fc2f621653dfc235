use fediverse_observer::machine::{Lifecycle, SideData};
use fediverse_observer::store::{Instance, Store, StoreError, BOOTSTRAP_HOST};
use fediverse_observer::InstanceState;

const NOW: i64 = 1_700_000_000;
const DAY: i64 = 86400;
const WEEK: i64 = 604800;
/// Midnight UTC after NOW (22:13:20 UTC).
const MIDNIGHT: i64 = NOW + 6400;

fn host(s: &str) -> String {
    s.to_string()
}

fn booted() -> Store {
    let mut store = Store::new();
    store.init(NOW).unwrap();
    store
}

fn seeded(name: &str) -> (Store, u64) {
    let mut store = booted();
    store.add_instance(&host(BOOTSTRAP_HOST), &host(name), NOW, 0).unwrap();
    let id = store.find(&host(name)).unwrap();
    (store, id)
}

fn row(store: &Store, id: u64) -> &Instance {
    store.get(id).unwrap()
}

fn record(name: &str, check_started: Option<i64>) -> Instance {
    Instance {
        hostname: host(name),
        discovered_via: None,
        lifecycle: Lifecycle { state: InstanceState::Alive, side: SideData::Empty },
        last_check: Some(NOW - DAY),
        next_check: NOW + 10,
        check_started,
    }
}

#[test]
fn cold_start_seeds_the_bootstrap_host() {
    let store = booted();
    assert_eq!(store.len(), 1);
    let id = store.find(&host("mastodon.social")).unwrap();
    let r = row(&store, id);
    assert_eq!(r.lifecycle.state, InstanceState::Discovered);
    assert_eq!(r.lifecycle.side, SideData::Empty);
    assert!(r.next_check <= NOW + DAY);
    assert_eq!(r.last_check, None);
    assert_eq!(r.check_started, None);
}

#[test]
fn init_is_idempotent() {
    let mut store = booted();
    store.init(NOW + 5).unwrap();
    assert_eq!(store.len(), 1);
    assert_eq!(row(&store, 0).next_check, NOW);
}

#[test]
fn peers_are_added_once() {
    let (mut store, a) = seeded("a.example");
    store.add_instance(&host("a.example"), &host("b.example"), NOW, 0).unwrap();
    let b = store.find(&host("b.example")).unwrap();
    let first = row(&store, b).next_check;
    assert_eq!(row(&store, b).discovered_via, Some(a));
    store.add_instance(&host("a.example"), &host("b.example"), NOW + 100, 0).unwrap();
    store.add_instance(&host(BOOTSTRAP_HOST), &host("b.example"), NOW + 200, 0).unwrap();
    assert_eq!(store.len(), 3);
    assert_eq!(row(&store, b).discovered_via, Some(a));
    assert_eq!(row(&store, b).next_check, first);
    assert!(NOW < first && first < MIDNIGHT);
}

#[test]
fn peers_of_unknown_sources_are_refused() {
    let mut store = booted();
    assert_eq!(
        store.add_instance(&host("nowhere.example"), &host("b.example"), NOW, 0),
        Err(StoreError::UnknownInstance)
    );
    assert_eq!(store.len(), 1);
}

#[test]
fn verdicts_on_unknown_hosts_are_refused() {
    let mut store = booted();
    let x = host("x.example");
    assert_eq!(store.mark_alive(&x, NOW), Err(StoreError::UnknownInstance));
    assert_eq!(store.mark_dead(&x, NOW), Err(StoreError::UnknownInstance));
    assert_eq!(store.mark_moved(&x, &host("y.example"), NOW, 0), Err(StoreError::UnknownInstance));
    assert_eq!(store.reschedule(&x, NOW), Err(StoreError::UnknownInstance));
    assert_eq!(store.len(), 1);
}

#[test]
fn alive_instance_is_checked_daily() {
    let (mut store, a) = seeded("a.example");
    store.mark_alive(&host("a.example"), NOW).unwrap();
    let r = row(&store, a);
    assert_eq!(r.lifecycle.state, InstanceState::Alive);
    assert_eq!(r.last_check, Some(NOW));
    assert!(NOW < r.next_check && r.next_check <= NOW + DAY);
}

#[test]
fn discovered_to_dying() {
    let (mut store, x) = seeded("x.example");
    store.mark_dead(&host("x.example"), NOW).unwrap();
    let r = row(&store, x);
    assert_eq!(r.lifecycle.state, InstanceState::Dying);
    assert_eq!(r.lifecycle.side, SideData::Dying { since: NOW, failed_checks_count: 1 });
    assert!(NOW < r.next_check && r.next_check <= NOW + DAY);
}

#[test]
fn dying_to_dead() {
    let (mut store, x) = seeded("x.example");
    let name = host("x.example");
    store.mark_dead(&name, NOW).unwrap();
    for k in 1..7 {
        store.mark_dead(&name, NOW + k).unwrap();
        assert_eq!(row(&store, x).lifecycle.state, InstanceState::Dying);
    }
    assert_eq!(
        row(&store, x).lifecycle.side,
        SideData::Dying { since: NOW, failed_checks_count: 7 }
    );
    store.mark_dead(&name, NOW + 7).unwrap();
    let r = row(&store, x);
    assert_eq!(r.lifecycle.state, InstanceState::Dead);
    assert_eq!(r.lifecycle.side, SideData::Empty);
    assert_eq!(r.last_check, Some(NOW + 7));
    assert!(NOW + 7 < r.next_check && r.next_check <= NOW + 7 + WEEK);
}

#[test]
fn moving_to_moved() {
    let (mut store, y) = seeded("y.example");
    let name = host("y.example");
    let to = host("z.example");
    store.mark_moved(&name, &to, NOW, 0).unwrap();
    let z = store.find(&to).unwrap();
    assert_eq!(row(&store, y).lifecycle.state, InstanceState::Moving);
    assert_eq!(
        row(&store, y).lifecycle.side,
        SideData::Moving { since: NOW, redirects_count: 1, moving_to: z }
    );
    assert_eq!(row(&store, z).lifecycle.state, InstanceState::Discovered);
    assert_eq!(row(&store, z).discovered_via, Some(y));
    let due = row(&store, z).next_check;
    assert!(NOW < due && due < MIDNIGHT);
    for k in 1..7 {
        store.mark_moved(&name, &to, NOW + k, 0).unwrap();
        assert_eq!(row(&store, y).lifecycle.state, InstanceState::Moving);
    }
    store.mark_moved(&name, &to, NOW + 7, 0).unwrap();
    let r = row(&store, y);
    assert_eq!(r.lifecycle.state, InstanceState::Moved);
    assert_eq!(r.lifecycle.side, SideData::Moved { moved_to: z });
    assert!(NOW + 7 < r.next_check && r.next_check <= NOW + 7 + WEEK);
    assert_eq!(store.len(), 3);
}

#[test]
fn redirect_target_change_restarts_the_run() {
    let (mut store, y) = seeded("y.example");
    let name = host("y.example");
    store.mark_moved(&name, &host("z.example"), NOW, 0).unwrap();
    store.mark_moved(&name, &host("z.example"), NOW + 1, 0).unwrap();
    store.mark_moved(&name, &host("w.example"), NOW + 2, 0).unwrap();
    let w = store.find(&host("w.example")).unwrap();
    let r = row(&store, y);
    assert_eq!(r.lifecycle.state, InstanceState::Moving);
    assert_eq!(r.lifecycle.side, SideData::Moving { since: NOW + 2, redirects_count: 1, moving_to: w });
}

#[test]
fn alive_clears_side_data() {
    let (mut store, y) = seeded("y.example");
    let name = host("y.example");
    store.mark_moved(&name, &host("z.example"), NOW, 0).unwrap();
    store.mark_alive(&name, NOW + 1).unwrap();
    assert_eq!(row(&store, y).lifecycle.state, InstanceState::Alive);
    assert_eq!(row(&store, y).lifecycle.side, SideData::Empty);
}

#[test]
fn reschedule_keeps_state_and_side_data() {
    let (mut store, x) = seeded("x.example");
    let name = host("x.example");
    store.mark_dead(&name, NOW).unwrap();
    store.mark_dead(&name, NOW + 1).unwrap();
    store.reschedule(&name, NOW + 2).unwrap();
    let r = row(&store, x);
    assert_eq!(r.lifecycle.state, InstanceState::Dying);
    assert_eq!(r.lifecycle.side, SideData::Dying { since: NOW, failed_checks_count: 2 });
    assert_eq!(r.last_check, Some(NOW + 1));
    assert!(NOW + 2 < r.next_check && r.next_check <= NOW + 2 + DAY);
}

#[test]
fn reschedule_of_dead_is_weekly() {
    let mut store = Store::restore(vec![Instance {
        lifecycle: Lifecycle { state: InstanceState::Dead, side: SideData::Empty },
        ..record("d.example", None)
    }])
    .unwrap();
    let mut later = false;
    for _ in 0..50 {
        store.reschedule(&host("d.example"), NOW).unwrap();
        let t = row(&store, 0).next_check;
        assert!(NOW < t && t <= NOW + WEEK);
        later |= t > NOW + DAY;
    }
    assert!(later);
}

#[test]
fn crash_recovery_clears_marks() {
    let mut store = Store::restore(vec![
        record("a.example", Some(NOW - 50)),
        record("b.example", Some(NOW - 40)),
    ])
    .unwrap();
    store.init(NOW).unwrap();
    assert_eq!(store.len(), 3);
    for id in 0..3 {
        assert_eq!(row(&store, id).check_started, None);
    }
}

#[test]
fn pick_skips_instances_being_checked() {
    let mut store = Store::restore(vec![
        Instance { next_check: NOW + 5, ..record("a.example", None) },
        Instance { next_check: NOW + 1, ..record("b.example", None) },
        Instance { next_check: NOW + 3, ..record("c.example", None) },
    ])
    .unwrap();
    assert_eq!(store.pick_next_instance(), Some((host("b.example"), NOW + 1)));
    store.start_checking(&host("b.example"), NOW);
    assert_eq!(row(&store, 1).check_started, Some(NOW));
    assert_eq!(store.pick_next_instance(), Some((host("c.example"), NOW + 3)));
    store.start_checking(&host("c.example"), NOW);
    store.start_checking(&host("a.example"), NOW);
    assert_eq!(store.pick_next_instance(), None);
    store.finish_checking(&host("b.example"));
    assert_eq!(row(&store, 1).check_started, None);
    assert_eq!(store.pick_next_instance(), Some((host("b.example"), NOW + 1)));
}

#[test]
fn pick_breaks_ties_by_lowest_id() {
    let mut store = Store::restore(vec![
        Instance { next_check: NOW + 1, ..record("a.example", Some(NOW)) },
        Instance { next_check: NOW + 2, ..record("b.example", None) },
        Instance { next_check: NOW + 2, ..record("c.example", None) },
    ])
    .unwrap();
    assert_eq!(store.pick_next_instance(), Some((host("b.example"), NOW + 2)));
    let mut empty = Store::new();
    assert_eq!(empty.pick_next_instance(), None);
}

#[test]
fn pick_follows_rescheduled_checks() {
    let mut store = Store::restore(vec![
        Instance { next_check: NOW + 1, ..record("a.example", None) },
        Instance { next_check: NOW + 2, ..record("b.example", None) },
    ])
    .unwrap();
    assert_eq!(store.pick_next_instance(), Some((host("a.example"), NOW + 1)));
    store.reschedule(&host("a.example"), NOW + 10).unwrap();
    assert_eq!(store.pick_next_instance(), Some((host("b.example"), NOW + 2)));
    store.mark_alive(&host("b.example"), NOW + 10).unwrap();
    let a = store.get(0).unwrap().next_check;
    let b = store.get(1).unwrap().next_check;
    let expected = if b < a { ("b.example", b) } else { ("a.example", a) };
    assert_eq!(store.pick_next_instance(), Some((host(expected.0), expected.1)));
    store.start_checking(&host(expected.0), NOW + 11);
    let other = if expected.0 == "a.example" { ("b.example", b) } else { ("a.example", a) };
    assert_eq!(store.pick_next_instance(), Some((host(other.0), other.1)));
    store.finish_checking(&host(expected.0));
    assert_eq!(store.pick_next_instance(), Some((host(expected.0), expected.1)));
}

#[test]
fn missed_checks_are_spread_over_today() {
    let mut store = Store::restore(vec![
        Instance { next_check: NOW - 500, ..record("a.example", None) },
        Instance { next_check: NOW + 500, ..record("b.example", None) },
    ])
    .unwrap();
    store.reschedule_missed_checks(NOW, 0);
    let a = row(&store, 0).next_check;
    assert!(NOW < a && a < MIDNIGHT);
    assert_eq!(row(&store, 1).next_check, NOW + 500);
}

#[test]
fn restore_rejects_broken_records() {
    assert!(Store::restore(vec![record("a.example", None), record("a.example", None)]).is_err());
    let bad_state = Instance {
        lifecycle: Lifecycle { state: InstanceState::Dying, side: SideData::Empty },
        ..record("a.example", None)
    };
    assert_eq!(Store::restore(vec![bad_state]).err(), Some(StoreError::InvalidRecord));
    let dangling = Instance {
        lifecycle: Lifecycle { state: InstanceState::Moved, side: SideData::Moved { moved_to: 3 } },
        ..record("a.example", None)
    };
    assert_eq!(Store::restore(vec![dangling]).err(), Some(StoreError::InvalidRecord));
    let unknown_source = Instance { discovered_via: Some(1), ..record("a.example", None) };
    assert_eq!(Store::restore(vec![unknown_source]).err(), Some(StoreError::InvalidRecord));
}

#[test]
fn published_list_holds_alive_instances_in_id_order() {
    let (mut store, _) = seeded("a.example");
    store.add_instance(&host("a.example"), &host("b.example"), NOW, 0).unwrap();
    store.add_instance(&host("a.example"), &host("c.example"), NOW, 0).unwrap();
    store.mark_alive(&host("c.example"), NOW).unwrap();
    store.mark_dead(&host("b.example"), NOW).unwrap();
    store.mark_alive(&host("a.example"), NOW).unwrap();
    assert_eq!(store.alive_hostnames(), vec![host("a.example"), host("c.example")]);
    assert!(Store::new().alive_hostnames().is_empty());
}

#[test]
fn missed_checks_follow_the_zone() {
    // One hour east of UTC the local day ends at 23:00 UTC.
    let mut store = Store::restore(vec![Instance { next_check: NOW - 500, ..record("a.example", None) }])
        .unwrap();
    for _ in 0..50 {
        store.reschedule_missed_checks(NOW, 3600);
        let a = row(&store, 0).next_check;
        assert!(NOW < a && a < NOW + 2800);
        store = Store::restore(vec![Instance { next_check: NOW - 500, ..record("a.example", None) }])
            .unwrap();
    }
}
