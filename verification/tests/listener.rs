use ntfy_daemon::listener::{
    backoff_delay, classify_event, Listener, ListenerCommand, ListenerEffect, ListenerInput,
    ListenerState, StreamEvent,
};
use ntfy_daemon::models::ConnectionState;

fn sleep_of(effects: &[ListenerEffect]) -> u64 {
    match effects.last() {
        Some(ListenerEffect::Sleep(ms)) => *ms,
        other => panic!("no sleep at the end: {:?}", other),
    }
}

#[test]
fn new_listener_is_idle() {
    let l = Listener::new();
    assert_eq!(l.state, ListenerState::Idle);
    assert_eq!(l.failures, 0);
    assert_eq!(l.attempt, 0);
    assert_eq!(l.state(), ConnectionState::Down);
}

#[test]
fn base_delays_double_up_to_a_minute() {
    let expected = [1000u64, 2000, 4000, 8000, 16000, 32000, 60000, 60000, 60000];
    for (i, ms) in expected.iter().enumerate() {
        assert_eq!(backoff_delay(i as u32 + 1, 200), *ms);
    }
    assert_eq!(backoff_delay(0, 200), 1000);
    assert_eq!(backoff_delay(u32::MAX, 200), 60000);
}

#[test]
fn jitter_is_a_fifth_either_way() {
    assert_eq!(backoff_delay(1, 0), 800);
    assert_eq!(backoff_delay(1, 400), 1200);
    assert_eq!(backoff_delay(1, 401), 1200);
    assert_eq!(backoff_delay(1, u32::MAX), 1200);
    assert_eq!(backoff_delay(1, 1), 801);
    assert_eq!(backoff_delay(3, 100), 3600);
    assert_eq!(backoff_delay(7, 0), 48000);
    assert_eq!(backoff_delay(7, 400), 72000);
    assert_eq!(backoff_delay(2, 333), 2266);
}

#[test]
fn event_names() {
    assert_eq!(classify_event("message"), StreamEvent::Message);
    assert_eq!(classify_event("keepalive"), StreamEvent::Keepalive);
    assert_eq!(classify_event("open"), StreamEvent::Open);
    assert_eq!(classify_event("poll_request"), StreamEvent::PollRequest);
    assert_eq!(classify_event("Message"), StreamEvent::Other);
    assert_eq!(classify_event(""), StreamEvent::Other);
}

#[test]
fn outage_and_recovery() {
    let mut l = Listener::new();
    assert_eq!(l.step_with(ListenerInput::Start, 200), vec![ListenerEffect::Connect]);
    assert_eq!(l.state, ListenerState::Connecting);
    assert_eq!(l.step_with(ListenerInput::Event(StreamEvent::Open), 200), vec![]);
    assert_eq!(l.state, ListenerState::Open);
    assert_eq!(l.state(), ConnectionState::Down);
    // One message.
    assert_eq!(
        l.step_with(ListenerInput::Event(StreamEvent::Message), 200),
        vec![ListenerEffect::Announce(ConnectionState::Up), ListenerEffect::Forward]
    );
    assert_eq!(l.state(), ConnectionState::Up);
    // The stream closes.
    assert_eq!(
        l.step_with(ListenerInput::Failed, 200),
        vec![ListenerEffect::Announce(ConnectionState::Degraded), ListenerEffect::Sleep(1000)]
    );
    assert_eq!(l.state, ListenerState::Backoff);
    assert_eq!(l.state(), ConnectionState::Degraded);
    // Two more attempts fail.
    assert_eq!(l.step_with(ListenerInput::TimerElapsed, 200), vec![ListenerEffect::Connect]);
    assert_eq!(l.step_with(ListenerInput::Failed, 200), vec![ListenerEffect::Sleep(2000)]);
    assert_eq!(l.state(), ConnectionState::Degraded);
    assert_eq!(l.step_with(ListenerInput::TimerElapsed, 200), vec![ListenerEffect::Connect]);
    assert_eq!(
        l.step_with(ListenerInput::Failed, 200),
        vec![ListenerEffect::Announce(ConnectionState::Down), ListenerEffect::Sleep(4000)]
    );
    assert_eq!(l.state(), ConnectionState::Down);
    assert_eq!(l.failures, 3);
    // A fourth failure announces nothing new.
    assert_eq!(l.step_with(ListenerInput::TimerElapsed, 200), vec![ListenerEffect::Connect]);
    assert_eq!(l.step_with(ListenerInput::Failed, 200), vec![ListenerEffect::Sleep(8000)]);
    // The network comes back: retry at once, with the delay reset.
    assert_eq!(l.step_with(ListenerInput::NetworkAvailable, 200), vec![ListenerEffect::Connect]);
    assert_eq!(l.state, ListenerState::Connecting);
    assert_eq!(l.attempt, 0);
    assert_eq!(l.state(), ConnectionState::Down);
    // Success.
    assert_eq!(l.step_with(ListenerInput::Event(StreamEvent::Open), 200), vec![]);
    assert_eq!(
        l.step_with(ListenerInput::Event(StreamEvent::Keepalive), 200),
        vec![ListenerEffect::Announce(ConnectionState::Up)]
    );
    assert_eq!(l.failures, 0);
    assert_eq!(
        l.step_with(ListenerInput::Event(StreamEvent::Message), 200),
        vec![ListenerEffect::Forward]
    );
    assert_eq!(l.state(), ConnectionState::Up);
    assert_eq!(l.state, ListenerState::Open);
}

#[test]
fn network_edge_only_counts_in_backoff() {
    let mut l = Listener::new();
    assert_eq!(l.step_with(ListenerInput::NetworkAvailable, 0), vec![]);
    assert_eq!(l.state, ListenerState::Idle);
    l.step_with(ListenerInput::Start, 0);
    assert_eq!(l.step_with(ListenerInput::NetworkAvailable, 0), vec![]);
    assert_eq!(l.state, ListenerState::Connecting);
    l.step_with(ListenerInput::Event(StreamEvent::Message), 0);
    assert_eq!(l.step_with(ListenerInput::NetworkAvailable, 0), vec![]);
    assert_eq!(l.state, ListenerState::Open);
}

#[test]
fn inputs_that_do_not_fit_change_nothing() {
    let mut l = Listener::new();
    let before = l;
    assert_eq!(l.step_with(ListenerInput::TimerElapsed, 0), vec![]);
    assert_eq!(l.step_with(ListenerInput::Failed, 0), vec![]);
    assert_eq!(l.step_with(ListenerInput::WatchdogExpired, 0), vec![]);
    assert_eq!(l.step_with(ListenerInput::Event(StreamEvent::Message), 0), vec![]);
    assert_eq!(l, before);
    l.step_with(ListenerInput::Start, 0);
    let connecting = l;
    assert_eq!(l.step_with(ListenerInput::Start, 0), vec![]);
    assert_eq!(l.step_with(ListenerInput::TimerElapsed, 0), vec![]);
    assert_eq!(l, connecting);
}

#[test]
fn watchdog_drops_the_stream_and_backs_off() {
    let mut l = Listener::new();
    l.step_with(ListenerInput::Start, 0);
    l.step_with(ListenerInput::Event(StreamEvent::Keepalive), 0);
    assert_eq!(
        l.step_with(ListenerInput::WatchdogExpired, 400),
        vec![
            ListenerEffect::Disconnect,
            ListenerEffect::Announce(ConnectionState::Degraded),
            ListenerEffect::Sleep(1200),
        ]
    );
    assert_eq!(l.state, ListenerState::Backoff);
}

#[test]
fn commands() {
    let mut l = Listener::new();
    assert_eq!(
        l.step_with(ListenerInput::Command(ListenerCommand::QueryState), 0),
        vec![ListenerEffect::Reply(ConnectionState::Down)]
    );
    l.step_with(ListenerInput::Start, 0);
    l.step_with(ListenerInput::Event(StreamEvent::Message), 0);
    assert_eq!(
        l.step_with(ListenerInput::Command(ListenerCommand::QueryState), 0),
        vec![ListenerEffect::Reply(ConnectionState::Up)]
    );
    assert_eq!(
        l.step_with(ListenerInput::Command(ListenerCommand::Restart), 0),
        vec![ListenerEffect::Disconnect, ListenerEffect::Connect]
    );
    assert_eq!(l.state, ListenerState::Connecting);
    assert_eq!(
        l.step_with(ListenerInput::Command(ListenerCommand::Shutdown), 0),
        vec![ListenerEffect::Disconnect]
    );
    assert_eq!(l.state, ListenerState::Idle);
    assert_eq!(l.step_with(ListenerInput::Command(ListenerCommand::Shutdown), 0), vec![]);
    assert_eq!(
        l.step_with(ListenerInput::Command(ListenerCommand::Restart), 0),
        vec![ListenerEffect::Connect]
    );
    l.step_with(ListenerInput::Failed, 0);
    assert_eq!(l.state, ListenerState::Backoff);
    assert_eq!(l.step_with(ListenerInput::Command(ListenerCommand::Shutdown), 0), vec![]);
    assert_eq!(l.state, ListenerState::Idle);
    assert_eq!(l.step_with(ListenerInput::TimerElapsed, 0), vec![]);
}

#[test]
fn drawn_jitter_stays_in_its_range() {
    let mut seen = Vec::new();
    for _ in 0..200 {
        let mut l = Listener::new();
        l.step(ListenerInput::Start);
        let first = sleep_of(&l.step(ListenerInput::Failed));
        assert!((800..=1200).contains(&first), "{}", first);
        l.step(ListenerInput::TimerElapsed);
        let second = sleep_of(&l.step(ListenerInput::Failed));
        assert!((1600..=2400).contains(&second), "{}", second);
        if !seen.contains(&first) {
            seen.push(first);
        }
    }
    // The jitter is drawn, not fixed: 200 draws do not all give one delay.
    assert!(seen.len() > 1);
    assert!(seen.iter().any(|ms| *ms < 1200));
}
