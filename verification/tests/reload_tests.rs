use mcp_gateway::reload::{ModifyKind, Order, Signal, Supervisor, WatchKind, DEBOUNCE_SECONDS};

const DATA: Signal = Signal::Changed(WatchKind::Modify(ModifyKind::Data));

#[test]
fn quiet_period_is_two_seconds() {
    assert_eq!(DEBOUNCE_SECONDS, 2);
}

#[test]
fn content_change_arms_the_timer_and_the_timer_reloads() {
    let mut supervisor = Supervisor::new();
    assert!(!supervisor.armed());
    assert_eq!(supervisor.handle(DATA), Order::Arm);
    assert!(supervisor.armed());
    assert_eq!(supervisor.handle(Signal::TimerFired), Order::Reload);
    assert!(!supervisor.armed());
}

#[test]
fn burst_of_changes_leads_to_one_reload() {
    for burst in 2..6 {
        let mut supervisor = Supervisor::new();
        let mut arms = 0;
        let mut reloads = 0;
        for _ in 0..burst {
            match supervisor.handle(DATA) {
                Order::Arm => arms += 1,
                Order::Reload => reloads += 1,
                _ => {}
            }
        }
        assert_eq!((arms, reloads), (1, 0));
        assert_eq!(supervisor.handle(Signal::TimerFired), Order::Reload);
        assert_eq!(supervisor.handle(Signal::TimerFired), Order::Nothing);
        assert!(!supervisor.armed());
    }
}

#[test]
fn events_while_armed_are_ignored() {
    let mut supervisor = Supervisor::new();
    assert_eq!(supervisor.handle(DATA), Order::Arm);
    for signal in [
        DATA,
        Signal::Changed(WatchKind::Modify(ModifyKind::Metadata)),
        Signal::Changed(WatchKind::Remove),
        Signal::WatchFailed,
    ] {
        assert_eq!(supervisor.handle(signal), Order::Nothing);
        assert!(supervisor.armed());
    }
}

#[test]
fn only_content_changes_arm_the_timer() {
    for kind in [
        WatchKind::Any,
        WatchKind::Access,
        WatchKind::Create,
        WatchKind::Remove,
        WatchKind::Other,
        WatchKind::Modify(ModifyKind::Any),
        WatchKind::Modify(ModifyKind::Metadata),
        WatchKind::Modify(ModifyKind::Name),
        WatchKind::Modify(ModifyKind::Other),
    ] {
        assert!(!Supervisor::is_content_modified(kind));
        let mut supervisor = Supervisor::new();
        assert_eq!(supervisor.handle(Signal::Changed(kind)), Order::Nothing);
        assert!(!supervisor.armed());
    }
    assert!(Supervisor::is_content_modified(WatchKind::Modify(ModifyKind::Data)));
}

#[test]
fn watcher_errors_and_stray_timers_do_nothing() {
    let mut supervisor = Supervisor::new();
    assert_eq!(supervisor.handle(Signal::WatchFailed), Order::Nothing);
    assert_eq!(supervisor.handle(Signal::TimerFired), Order::Nothing);
    assert!(!supervisor.armed());
}

#[test]
fn closed_watcher_stops_the_supervisor() {
    let mut supervisor = Supervisor::new();
    assert_eq!(supervisor.handle(Signal::Closed), Order::Stop);
    let mut supervisor = Supervisor::new();
    supervisor.handle(DATA);
    assert_eq!(supervisor.handle(Signal::Closed), Order::Stop);
}

#[test]
fn a_new_change_after_a_reload_arms_again() {
    let mut supervisor = Supervisor::new();
    assert_eq!(supervisor.handle(DATA), Order::Arm);
    assert_eq!(supervisor.handle(Signal::TimerFired), Order::Reload);
    assert_eq!(supervisor.handle(DATA), Order::Arm);
    assert_eq!(supervisor.handle(Signal::TimerFired), Order::Reload);
}
