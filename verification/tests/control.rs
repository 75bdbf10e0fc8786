//! The control channel protocol and the store edits around it.

use autolink::Scheduler;
use autolink::Target;
use autolink::Trigger;
use autolink::Weekday;

fn target(name: &str, uri: &str, triggers: Vec<Trigger>) -> Target {
    Target { name: String::from(name), uri: String::from(uri), triggers }
}

#[test]
fn start_and_stop_drive_the_run_flag() {
    let (s, r) = crossbeam_channel::unbounded();
    let mut sched = Scheduler::new();
    autolink::start(&s);
    let resync = sched.drain_signals(&r);
    assert!(resync);
    assert!(sched.running);
    autolink::stop(&s);
    let resync = sched.drain_signals(&r);
    assert!(!resync);
    assert!(!sched.running);
}

#[test]
fn resync_pulse_collapses_to_one_reload() {
    let (s, r) = crossbeam_channel::unbounded();
    let mut sched = Scheduler::new();
    autolink::start(&s);
    assert!(sched.drain_signals(&r));
    // A burst of stop-then-start pulses after two quick edits is
    // drained in one go: one reload, and the loop keeps running.
    autolink::send_resync(&s);
    autolink::send_resync(&s);
    let resync = sched.drain_signals(&r);
    assert!(resync);
    assert!(sched.running);
}

#[test]
fn drain_on_empty_channel_changes_nothing() {
    let (_s, r) = crossbeam_channel::unbounded::<bool>();
    let mut sched = Scheduler::new();
    assert!(!sched.drain_signals(&r));
    assert!(!sched.running);
}

#[test]
fn final_signal_of_a_drain_wins() {
    let (s, r) = crossbeam_channel::unbounded();
    let mut sched = Scheduler::new();
    autolink::send_resync(&s);
    autolink::stop(&s);
    let resync = sched.drain_signals(&r);
    // A true was seen, so a reload is owed, but the most recent
    // signal was a stop: the loop ends the drain paused.
    assert!(resync);
    assert!(!sched.running);
}

#[test]
fn store_edits_keep_order() {
    let mut store: Vec<Target> = Vec::new();
    autolink::insert_target(&mut store, target("A", "u1", vec![]));
    autolink::insert_target(&mut store, target("B", "u2", vec![]));
    autolink::insert_target(&mut store, target("C", "u3", vec![]));
    autolink::replace_at(&mut store, 1, target("B2", "u2b", vec![]));
    let removed = autolink::remove_at(&mut store, 0);
    assert_eq!(removed.name, "A");
    assert_eq!(store.len(), 2);
    assert_eq!(store[0].name, "B2");
    assert_eq!(store[0].uri, "u2b");
    assert_eq!(store[1].name, "C");
}
