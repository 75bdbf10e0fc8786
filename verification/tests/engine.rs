//! The matching, retirement and scheduling behaviour of the engine.

use autolink::Scheduler;
use autolink::Target;
use autolink::Trigger;
use autolink::Weekday;

fn trig(day: Weekday, hour: u8, minute: u8) -> Trigger {
    Trigger::new(day, hour, minute)
}

fn target(name: &str, uri: &str, triggers: Vec<Trigger>) -> Target {
    Target { name: String::from(name), uri: String::from(uri), triggers }
}

fn total_triggers(targets: &Vec<Target>) -> usize {
    let mut n = 0;
    for t in targets {
        n += t.triggers.len();
    }
    n
}

#[test]
fn matches_finds_equal_trigger() {
    let t = target("A", "u1", vec![trig(Weekday::Tue, 10, 0), trig(Weekday::Mon, 9, 0)]);
    assert!(t.matches(&trig(Weekday::Mon, 9, 0)));
    assert!(t.matches(&trig(Weekday::Tue, 10, 0)));
    assert!(!t.matches(&trig(Weekday::Mon, 9, 1)));
    assert!(!t.matches(&trig(Weekday::Tue, 9, 0)));
    let bare = target("B", "u2", vec![]);
    assert!(!bare.matches(&trig(Weekday::Mon, 9, 0)));
}

#[test]
fn retire_removes_first_matching_only() {
    let t = target(
        "A",
        "u1",
        vec![trig(Weekday::Mon, 9, 0), trig(Weekday::Mon, 9, 0), trig(Weekday::Tue, 10, 0)],
    );
    let r = t.retire(&trig(Weekday::Mon, 9, 0));
    assert_eq!(r.name, t.name);
    assert_eq!(r.uri, t.uri);
    assert_eq!(r.triggers, vec![trig(Weekday::Mon, 9, 0), trig(Weekday::Tue, 10, 0)]);
}

#[test]
fn retire_without_match_is_identity() {
    let t = target("A", "u1", vec![trig(Weekday::Mon, 9, 0)]);
    let r = t.retire(&trig(Weekday::Sun, 23, 59));
    assert_eq!(r.triggers, t.triggers);
    assert_eq!(r.name, t.name);
    assert_eq!(r.uri, t.uri);
}

#[test]
fn fires_once_then_quiet_within_minute() {
    let store = vec![
        target("A", "u1", vec![trig(Weekday::Mon, 9, 0)]),
        target("B", "u2", vec![trig(Weekday::Tue, 10, 0)]),
    ];
    let mut sched = Scheduler::new();
    sched.apply_signal(true);
    sched.load_snapshot(&store);
    let now = trig(Weekday::Mon, 9, 0);
    assert_eq!(sched.tick_match(&now), Some(String::from("u1")));
    // Same minute again: the fired trigger is retired, nothing fires.
    assert_eq!(sched.tick_match(&now), None);
}

#[test]
fn no_fire_on_wrong_day() {
    let store = vec![target("A", "u1", vec![trig(Weekday::Tue, 10, 0)])];
    let mut sched = Scheduler::new();
    sched.apply_signal(true);
    sched.load_snapshot(&store);
    assert_eq!(sched.tick_match(&trig(Weekday::Mon, 10, 0)), None);
}

#[test]
fn at_most_one_activation_per_tick() {
    let store = vec![
        target("A", "u1", vec![trig(Weekday::Mon, 9, 0)]),
        target("B", "u2", vec![trig(Weekday::Mon, 9, 0)]),
    ];
    let mut sched = Scheduler::new();
    sched.apply_signal(true);
    sched.load_snapshot(&store);
    let now = trig(Weekday::Mon, 9, 0);
    // Both targets match, but one tick fires only the first.
    assert_eq!(sched.tick_match(&now), Some(String::from("u1")));
    // The second still matches on the next tick of the same minute.
    assert_eq!(sched.tick_match(&now), Some(String::from("u2")));
}

#[test]
fn exhausted_snapshot_resets() {
    let store = vec![target("A", "u1", vec![trig(Weekday::Mon, 9, 0)])];
    let mut sched = Scheduler::new();
    sched.apply_signal(true);
    sched.load_snapshot(&store);
    let now = trig(Weekday::Mon, 9, 0);
    assert_eq!(sched.tick_match(&now), Some(String::from("u1")));
    // Firing spent the only trigger, so the tick's reset restored the
    // working snapshot from the full copy: the count is back.
    assert_eq!(total_triggers(&sched.working), 1);
}

#[test]
fn single_trigger_store_refires_after_reset() {
    // When the fired trigger was the snapshot's last one, the same
    // tick's reset already restores the full snapshot, so the target
    // fires again on the next tick of the same minute. Quiet-within-
    // the-minute behaviour needs some other trigger still pending,
    // as in fires_once_then_quiet_within_minute.
    let store = vec![target("A", "u1", vec![trig(Weekday::Mon, 9, 0)])];
    let mut sched = Scheduler::new();
    sched.apply_signal(true);
    sched.load_snapshot(&store);
    let now = trig(Weekday::Mon, 9, 0);
    assert_eq!(sched.tick_match(&now), Some(String::from("u1")));
    assert_eq!(sched.tick_match(&now), Some(String::from("u1")));
}

#[test]
fn paused_scheduler_does_nothing() {
    let store = vec![target("A", "u1", vec![trig(Weekday::Mon, 9, 0)])];
    let mut sched = Scheduler::new();
    sched.load_snapshot(&store);
    assert_eq!(sched.tick_match(&trig(Weekday::Mon, 9, 0)), None);
    assert_eq!(total_triggers(&sched.working), 1);
}

#[test]
fn tick_now_when_paused_is_none() {
    let mut sched = Scheduler::new();
    assert_eq!(sched.tick_now(), None);
}

#[test]
fn removed_target_never_fires() {
    let mut store = vec![target("A", "u1", vec![trig(Weekday::Mon, 9, 0)])];
    let mut sched = Scheduler::new();
    sched.apply_signal(true);
    sched.load_snapshot(&store);
    // The only target is removed while the loop is running, and the
    // re-sync pulse makes the loop reload an empty snapshot.
    autolink::remove_at(&mut store, 0);
    sched.apply_signal(false);
    sched.apply_signal(true);
    sched.load_snapshot(&store);
    assert_eq!(sched.tick_match(&trig(Weekday::Mon, 9, 0)), None);
    assert_eq!(sched.working.len(), 0);
}

#[test]
fn resync_uses_fresh_data() {
    let mut store = vec![target("A", "u1", vec![trig(Weekday::Mon, 9, 0)])];
    let mut sched = Scheduler::new();
    sched.apply_signal(true);
    sched.load_snapshot(&store);
    // The store is edited: the target now points at a new URI.
    autolink::replace_at(&mut store, 0, target("A", "u9", vec![trig(Weekday::Mon, 9, 0)]));
    sched.apply_signal(false);
    sched.apply_signal(true);
    sched.load_snapshot(&store);
    // The next match attempt sees the mutated data, never the stale copy.
    assert_eq!(sched.tick_match(&trig(Weekday::Mon, 9, 0)), Some(String::from("u9")));
}
