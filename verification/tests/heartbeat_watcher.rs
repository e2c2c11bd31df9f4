use runtime_gateway::heartbeat::{Heartbeat, IdleMonitor};
use runtime_gateway::watcher::Debouncer;

#[test]
fn ping_advances_and_returns_timestamp() {
    let mut hb = Heartbeat::new(100);
    assert_eq!(hb.ping(150), 150);
    assert_eq!(hb.last, 150);
}

#[test]
fn ping_never_regresses() {
    let mut hb = Heartbeat::new(100);
    hb.ping(500);
    // a stale writer races in with an older timestamp: the value stays put
    assert_eq!(hb.ping(120), 500);
    assert_eq!(hb.last, 500);
}

#[test]
fn idle_monitor_fires_exactly_once_per_episode() {
    let mut m = IdleMonitor::new(60);
    // activity 10, now 50: only 40 units of silence
    assert!(!m.poll(10, 50));
    // 70 units of silence: breach, fires
    assert!(m.poll(10, 80));
    // later poll ticks of the same breach stay quiet
    assert!(!m.poll(10, 90));
    assert!(!m.poll(10, 1000));
}

#[test]
fn idle_monitor_exact_threshold_fires() {
    let mut m = IdleMonitor::new(60);
    assert!(m.poll(40, 100));
}

#[test]
fn debouncer_collapses_burst_into_one_notification() {
    let mut d = Debouncer::new(10);
    // nothing pending: no notification
    assert!(!d.poll(5));
    // a burst of three raw events
    d.note_event(20);
    d.note_event(22);
    d.note_event(24);
    // still inside the quiet interval of the last event
    assert!(!d.poll(30));
    // quiet long enough: exactly one notification
    assert!(d.poll(34));
    assert!(!d.poll(50));
    // a new event opens a new episode
    d.note_event(60);
    assert!(d.poll(70));
}
