use fediverse_observer::{Cadence, InstanceState};

#[test]
fn state_codes_decode() {
    assert_eq!(InstanceState::from(0), Some(InstanceState::Discovered));
    assert_eq!(InstanceState::from(1), Some(InstanceState::Alive));
    assert_eq!(InstanceState::from(2), Some(InstanceState::Dying));
    assert_eq!(InstanceState::from(3), Some(InstanceState::Dead));
    assert_eq!(InstanceState::from(4), Some(InstanceState::Moving));
    assert_eq!(InstanceState::from(5), Some(InstanceState::Moved));
    assert_eq!(InstanceState::from(6), None);
    assert_eq!(InstanceState::from(255), None);
}

#[test]
fn state_codes_round_trip() {
    for i in 0..=5u8 {
        assert_eq!(InstanceState::from(i).unwrap().code(), i);
    }
}

#[test]
fn retry_cadence_follows_the_state() {
    assert_eq!(InstanceState::Discovered.retry_cadence(), Cadence::Daily);
    assert_eq!(InstanceState::Alive.retry_cadence(), Cadence::Daily);
    assert_eq!(InstanceState::Dying.retry_cadence(), Cadence::Daily);
    assert_eq!(InstanceState::Dead.retry_cadence(), Cadence::Weekly);
    assert_eq!(InstanceState::Moving.retry_cadence(), Cadence::Daily);
    assert_eq!(InstanceState::Moved.retry_cadence(), Cadence::Weekly);
}
