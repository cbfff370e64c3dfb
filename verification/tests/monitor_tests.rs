use vagga::monitor::{
    monitor_exit_code, Monitor, MonitorAction, MonitorEvent, MonitorResult, SIGKILL, SIGTERM,
};
use vagga::spawn::{convert_namespace, Command, Namespace, SpawnStep};
use vagga::uidmap::Uidmap;

#[test]
fn stop_on_failure_signals_the_rest() {
    // children a (long-running) and b (fails at once): the group gets
    // SIGTERM immediately and SIGKILL after the grace period, and the
    // overall exit code is b's
    let mut mon = Monitor::new();
    mon.add("a".to_string());
    mon.add("b".to_string());
    assert!(mon.result().is_none());

    let actions = mon.step(MonitorEvent::ChildExited(1, 1));
    assert_eq!(actions.len(), 2);
    assert!(matches!(actions[0], MonitorAction::SignalAll(s) if s == SIGTERM));
    assert!(matches!(actions[1], MonitorAction::ScheduleKill));

    let actions = mon.step(MonitorEvent::GraceExpired);
    assert_eq!(actions.len(), 1);
    assert!(matches!(actions[0], MonitorAction::SignalAll(s) if s == SIGKILL));

    // a dies to the shutdown's own SIGKILL; the group result is
    // still b's code, not 143
    let actions = mon.step(MonitorEvent::ChildKilled(0));
    assert!(actions.is_empty());
    assert_eq!(mon.result(), Some(MonitorResult::Exit(1)));
    assert_eq!(monitor_exit_code(&MonitorResult::Exit(1)), 1);
}

#[test]
fn all_children_succeeding_exits_zero() {
    let mut mon = Monitor::new();
    mon.add("a".to_string());
    mon.add("b".to_string());
    mon.step(MonitorEvent::ChildExited(0, 0));
    assert!(mon.result().is_none());
    mon.step(MonitorEvent::ChildExited(1, 0));
    assert_eq!(mon.result(), Some(MonitorResult::Exit(0)));
}

#[test]
fn host_signal_kills_the_group() {
    let mut mon = Monitor::new();
    mon.add("a".to_string());
    let actions = mon.step(MonitorEvent::HostSignal(SIGTERM));
    assert!(matches!(actions[0], MonitorAction::SignalAll(s) if s == SIGTERM));
    mon.step(MonitorEvent::ChildExited(0, 143));
    assert_eq!(mon.result(), Some(MonitorResult::Killed));
    assert_eq!(monitor_exit_code(&MonitorResult::Killed), 143);
}

#[test]
fn signaled_child_marks_the_group_killed() {
    let mut mon = Monitor::new();
    mon.add("a".to_string());
    mon.add("b".to_string());
    let actions = mon.step(MonitorEvent::ChildKilled(0));
    assert_eq!(actions.len(), 2);
    mon.step(MonitorEvent::ChildExited(1, 0));
    assert_eq!(mon.result(), Some(MonitorResult::Killed));
}

#[test]
fn first_failure_wins() {
    let mut mon = Monitor::new();
    mon.add("a".to_string());
    mon.add("b".to_string());
    mon.step(MonitorEvent::ChildExited(0, 7));
    mon.step(MonitorEvent::ChildExited(1, 9));
    assert_eq!(mon.result(), Some(MonitorResult::Exit(7)));
}

#[test]
fn spawn_plan_applies_uidmap_before_wake() {
    // the uid map is written exactly once, between the fork and the
    // wakeup byte
    let mut cmd = Command::new(
        "wrapper".to_string(),
        "/vagga/bin/wrapper".to_string(),
        "/work".to_string(),
    );
    cmd.container();
    cmd.set_max_uidmap(Uidmap::Singleton(1000, 1000));
    let plan = cmd.spawn_plan();
    assert_eq!(plan.len(), 3);
    assert!(matches!(plan[0], SpawnStep::Fork));
    assert!(matches!(plan[1], SpawnStep::ApplyUidmap(_)));
    assert!(matches!(plan[2], SpawnStep::WakePipe));
    let applications = plan
        .iter()
        .filter(|s| matches!(s, SpawnStep::ApplyUidmap(_)))
        .count();
    assert_eq!(applications, 1);
}

#[test]
fn spawn_plan_without_userns_skips_the_map() {
    let cmd = Command::new("run".to_string(), "/bin/sh".to_string(), "/work".to_string());
    let plan = cmd.spawn_plan();
    assert_eq!(plan.len(), 2);
    assert!(matches!(plan[0], SpawnStep::Fork));
    assert!(matches!(plan[1], SpawnStep::WakePipe));
}

#[test]
fn command_builder_accumulates_state() {
    let mut cmd = Command::new("run".to_string(), "/bin/sh".to_string(), "/work".to_string());
    assert_eq!(cmd.arguments, vec!["/bin/sh".to_string()]);
    cmd.arg("-c".to_string());
    cmd.args(&vec!["echo hi".to_string()]);
    assert_eq!(cmd.arguments, vec!["/bin/sh", "-c", "echo hi"]);
    cmd.set_env("TERM".to_string(), "dumb".to_string());
    cmd.set_env("TERM".to_string(), "xterm".to_string());
    assert_eq!(cmd.environment, vec![("TERM".to_string(), "xterm".to_string())]);
    cmd.keep_sigmask();
    assert!(!cmd.restore_sigmask);
    cmd.container();
    assert!(cmd.namespaces.mount && cmd.namespaces.ipc && cmd.namespaces.pid);
    assert!(!cmd.namespaces.user);
    cmd.network_ns();
    assert!(cmd.namespaces.net && cmd.namespaces.uts);
}

#[test]
fn clone_flags_combine() {
    let mut cmd = Command::new("run".to_string(), "/bin/sh".to_string(), "/work".to_string());
    cmd.container();
    assert_eq!(cmd.clone_flags(), 0x00020000 | 0x08000000 | 0x20000000);
}

#[test]
fn namespace_indexes_round_trip() {
    let all = [
        Namespace::NewMount,
        Namespace::NewUts,
        Namespace::NewIpc,
        Namespace::NewUser,
        Namespace::NewPid,
        Namespace::NewNet,
    ];
    for ns in all {
        assert_eq!(Namespace::from_usize(ns.to_usize()), ns);
    }
    assert_eq!(convert_namespace(Namespace::NewUser), 0x10000000);
    assert_eq!(convert_namespace(Namespace::NewNet), 0x40000000);
}

