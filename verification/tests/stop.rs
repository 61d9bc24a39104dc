use nocobase_desktop::effect::{ChildState, Effect, Reply, Signal, Step, Target};
use nocobase_desktop::layout::Host;
use nocobase_desktop::stop::{
    on_window_event, on_window_event_next, signal_target, stop_runtime, stop_runtime_next,
    terminate_child, terminate_child_next,
};

fn host(unix: bool) -> Host {
    Host { unix, home_found: true, resources: Ok(()), version: "1.2.3".to_string() }
}

/// A child that exits when it has been looked at so many times, if it exits at all.
struct FakeChild {
    exits_after: Option<u32>,
    looks: u32,
    slept: u64,
    signals: Vec<(Target, Signal)>,
    log: Vec<&'static str>,
}

impl FakeChild {
    fn new(exits_after: Option<u32>) -> FakeChild {
        FakeChild { exits_after, looks: 0, slept: 0, signals: Vec::new(), log: Vec::new() }
    }

    fn perform(&mut self, effect: Effect) -> Reply {
        match effect {
            Effect::SendSignal(target, signal) => {
                self.signals.push((target, signal));
                Reply::Done(Ok(()))
            }
            Effect::PollTaken => {
                self.looks += 1;
                let gone = self.exits_after.map_or(false, |n| self.looks > n);
                Reply::Child(Ok(if gone { ChildState::Exited } else { ChildState::Running }))
            }
            Effect::Sleep(millis) => {
                self.slept += millis;
                Reply::Done(Ok(()))
            }
            Effect::WaitTaken => {
                self.log.push("wait");
                Reply::Done(Ok(()))
            }
            Effect::KillTaken => {
                self.log.push("kill");
                Reply::Done(Ok(()))
            }
            Effect::LockChild => {
                self.log.push("lock");
                Reply::Done(Ok(()))
            }
            Effect::TakeChild => {
                self.log.push("take");
                Reply::Answer(true)
            }
            Effect::UnlockChild => {
                self.log.push("unlock");
                Reply::Done(Ok(()))
            }
            Effect::Exit(code) => {
                assert_eq!(code, 0);
                self.log.push("exit");
                Reply::Done(Ok(()))
            }
            other => panic!("unexpected effect {:?}", other),
        }
    }

    fn end(&mut self, host: &Host) -> Result<(), String> {
        let mut step = terminate_child(host);
        loop {
            match step {
                Step::Perform(phase, effect) => {
                    let reply = self.perform(effect);
                    step = terminate_child_next(phase, reply);
                }
                Step::Finished(result) => return result,
            }
        }
    }
}

#[test]
fn willing_child_is_asked_and_its_group_after_it() {
    let mut child = FakeChild::new(Some(2));
    assert_eq!(child.end(&host(true)), Ok(()));
    assert_eq!(
        child.signals,
        vec![(Target::Child, Signal::Terminate), (Target::Group, Signal::Terminate)]
    );
    assert_eq!((child.looks, child.slept), (3, 200));
    assert!(child.log.is_empty());
}

#[test]
fn unwilling_child_is_killed_after_eight_seconds() {
    let mut child = FakeChild::new(None);
    assert_eq!(child.end(&host(true)), Ok(()));
    assert_eq!(
        child.signals,
        vec![(Target::Child, Signal::Terminate), (Target::Group, Signal::Kill)]
    );
    assert_eq!((child.looks, child.slept), (80, 8000));
    assert_eq!(child.log, vec!["wait"]);
}

#[test]
fn child_that_ends_before_the_last_look_is_not_killed() {
    let mut child = FakeChild::new(Some(79));
    assert_eq!(child.end(&host(true)), Ok(()));
    assert_eq!(
        child.signals,
        vec![(Target::Child, Signal::Terminate), (Target::Group, Signal::Terminate)]
    );
    assert_eq!((child.looks, child.slept), (80, 7900));
}

#[test]
fn failed_wait_is_no_success() {
    let reply = Reply::Done(Err("lost".to_string()));
    assert_eq!(
        terminate_child_next(nocobase_desktop::stop::EndPhase::Wait, reply),
        Step::Finished(Err("lost".to_string()))
    );
}

#[test]
fn child_is_killed_at_once_where_there_are_no_signals() {
    let mut child = FakeChild::new(None);
    assert_eq!(child.end(&host(false)), Ok(()));
    assert!(child.signals.is_empty());
    assert_eq!(child.log, vec!["kill", "wait"]);
}

#[test]
fn failure_to_look_at_the_child_is_told() {
    match terminate_child_next(
        nocobase_desktop::stop::EndPhase::Poll(3),
        Reply::Child(Err("gone".to_string())),
    ) {
        Step::Finished(result) => assert_eq!(result, Err("gone".to_string())),
        _ => panic!("a failure was due"),
    }
}

#[test]
fn receivers_of_signals_have_their_numbers() {
    assert_eq!(signal_target(4711, Target::Child), 4711);
    assert_eq!(signal_target(4711, Target::Group), -4711);
    assert_eq!(signal_target(0x8000_0000, Target::Child), i32::MIN);
    assert_eq!(signal_target(u32::MAX, Target::Group), 1);
}

#[test]
fn stopping_without_a_child_is_nothing() {
    let host = host(true);
    let phase = match stop_runtime() {
        Step::Perform(phase, Effect::LockChild) => phase,
        other => panic!("unexpected step {:?}", other),
    };
    let phase = match stop_runtime_next(&host, phase, Reply::Done(Ok(()))) {
        Step::Perform(phase, Effect::TakeChild) => phase,
        other => panic!("unexpected step {:?}", other),
    };
    assert_eq!(stop_runtime_next(&host, phase, Reply::Answer(false)), Step::Finished(Ok(())));
}

#[test]
fn stopping_needs_the_lock() {
    let phase = nocobase_desktop::stop::StopPhase::Lock;
    assert_eq!(
        stop_runtime_next(&host(true), phase, Reply::Done(Err("poisoned".to_string()))),
        Step::Finished(Err("poisoned".to_string()))
    );
}

#[test]
fn end_of_the_main_window_ends_child_and_application() {
    let host = host(true);
    let mut child = FakeChild::new(Some(0));
    let mut step = on_window_event("main", true);
    loop {
        match step {
            Step::Perform(phase, effect) => {
                let reply = child.perform(effect);
                step = on_window_event_next(&host, phase, reply);
            }
            Step::Finished(result) => {
                assert_eq!(result, Ok(()));
                break;
            }
        }
    }
    assert_eq!(child.log, vec!["lock", "take", "unlock", "exit"]);
    assert_eq!(child.signals.len(), 2);
}

#[test]
fn other_windows_and_events_change_nothing() {
    assert_eq!(on_window_event("nocobase", true), Step::Finished(Ok(())));
    assert_eq!(on_window_event("main", false), Step::Finished(Ok(())));
}

#[test]
fn application_ends_though_the_lock_is_lost() {
    let host = host(true);
    let phase = match on_window_event("main", true) {
        Step::Perform(phase, Effect::LockChild) => phase,
        other => panic!("unexpected step {:?}", other),
    };
    let phase = match on_window_event_next(&host, phase, Reply::Done(Err("poisoned".to_string()))) {
        Step::Perform(phase, Effect::UnlockChild) => phase,
        other => panic!("unexpected step {:?}", other),
    };
    assert!(matches!(
        on_window_event_next(&host, phase, Reply::Done(Ok(()))),
        Step::Perform(_, Effect::Exit(0))
    ));
}
