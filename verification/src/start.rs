//! Starting the server.
use vstd::prelude::*;

use crate::api::{api_step, ask, wait_for_api, wait_for_api_next, ApiPhase};
use crate::command::Job;
use crate::config::{ConfigView, DatabaseConfig};
use crate::config_store::{save_config_file, save_config_next, save_first, save_step, SavePhase};
use crate::effect::{
    fails, succeeds, ChildState, Effect, EffectView, Reply, ReplyView, Step, StepView,
};
use crate::launch::{launch, launch_first, launch_next, launch_step, LaunchPhase, LaunchView};
use crate::layout::{initialized_marker, initialized_marker_path, Host, HostView};
use crate::path::{FilePath, PathView};
use crate::register::{
    initialize_nb_environment, initialize_nb_environment_next, register_first, register_step,
    RegisterPhase, RegisterView,
};
use crate::text::Text;
use crate::upgrade::{ensure_first, ensure_next, ensure_runtime, ensure_step, EnsurePhase};

verus! {

/// What starting waits for.
#[derive(Debug, PartialEq, Eq)]
pub enum StartPhase {
    Save(SavePhase),
    Ensure(EnsurePhase),
    Probe,
    Install(LaunchPhase),
    Enable(LaunchPhase),
    Mark,
    Lock,
    Poll,
    Serve(LaunchPhase),
    Unlock,
    Wait(ApiPhase),
    Register(RegisterPhase),
}

/// The mathematical model of a `StartPhase`.
pub enum StartView {
    Save(SavePhase),
    Ensure(EnsurePhase),
    Probe,
    Install(LaunchView),
    Enable(LaunchView),
    Mark,
    Lock,
    Poll,
    Serve(LaunchView),
    Unlock,
    Wait(ApiPhase),
    Register(RegisterView),
}

impl View for StartPhase {
    type V = StartView;

    open spec fn view(&self) -> StartView {
        match self {
            StartPhase::Save(p) => StartView::Save(*p),
            StartPhase::Ensure(p) => StartView::Ensure(*p),
            StartPhase::Probe => StartView::Probe,
            StartPhase::Install(p) => StartView::Install(p@),
            StartPhase::Enable(p) => StartView::Enable(p@),
            StartPhase::Mark => StartView::Mark,
            StartPhase::Lock => StartView::Lock,
            StartPhase::Poll => StartView::Poll,
            StartPhase::Serve(p) => StartView::Serve(p@),
            StartPhase::Unlock => StartView::Unlock,
            StartPhase::Wait(p) => StartView::Wait(*p),
            StartPhase::Register(p) => StartView::Register(p@),
        }
    }
}

/// A step of saving the configuration; the runtime comes next.
pub open spec fn start_save(host: HostView, step: StepView<SavePhase, ()>) -> StepView<
    StartView,
    (),
> {
    match step {
        StepView::Perform(p, e) => StepView::Perform(StartView::Save(p), e),
        StepView::Finished(Ok(_)) => start_ensure(ensure_first(host)),
        StepView::Finished(Err(m)) => fails(m),
    }
}

/// A step of making sure of the runtime; setting up comes next.
pub open spec fn start_ensure(step: StepView<EnsurePhase, PathView>) -> StepView<StartView, ()> {
    match step {
        StepView::Perform(p, e) => StepView::Perform(StartView::Ensure(p), e),
        StepView::Finished(Ok(_)) => StepView::Perform(
            StartView::Probe,
            EffectView::Exists(initialized_marker()),
        ),
        StepView::Finished(Err(m)) => fails(m),
    }
}

/// A step of creating the tables; the plugin comes next.
pub open spec fn start_install(host: HostView, step: StepView<LaunchView, ()>) -> StepView<
    StartView,
    (),
> {
    match step {
        StepView::Perform(p, e) => StepView::Perform(StartView::Install(p), e),
        StepView::Finished(Ok(_)) => start_enable(launch_first(host)),
        StepView::Finished(Err(m)) => fails(m),
    }
}

/// A step of enabling the plugin; the mark comes next.
pub open spec fn start_enable(step: StepView<LaunchView, ()>) -> StepView<StartView, ()> {
    match step {
        StepView::Perform(p, e) => StepView::Perform(StartView::Enable(p), e),
        StepView::Finished(Ok(_)) => StepView::Perform(
            StartView::Mark,
            EffectView::WriteText(initialized_marker(), "ok"@),
        ),
        StepView::Finished(Err(m)) => fails(m),
    }
}

/// Lock the child.
pub open spec fn start_lock() -> StepView<StartView, ()> {
    StepView::Perform(StartView::Lock, EffectView::LockChild)
}

/// A step of starting the server; giving the lock back comes next.
pub open spec fn start_serve(step: StepView<LaunchView, ()>) -> StepView<StartView, ()> {
    match step {
        StepView::Perform(p, e) => StepView::Perform(StartView::Serve(p), e),
        StepView::Finished(Ok(_)) => StepView::Perform(StartView::Unlock, EffectView::UnlockChild),
        StepView::Finished(Err(m)) => fails(m),
    }
}

/// A step of waiting for the server; registering comes next.
pub open spec fn start_wait(step: StepView<ApiPhase, ()>) -> StepView<StartView, ()> {
    match step {
        StepView::Perform(p, e) => StepView::Perform(StartView::Wait(p), e),
        StepView::Finished(Ok(_)) => start_register(register_first()),
        StepView::Finished(Err(m)) => fails(m),
    }
}

/// A step of registering, with which starting ends.
pub open spec fn start_register(step: StepView<RegisterView, ()>) -> StepView<StartView, ()> {
    match step {
        StepView::Perform(p, e) => StepView::Perform(StartView::Register(p), e),
        StepView::Finished(r) => StepView::Finished(r),
    }
}

/// The first thing to do: save the configuration.
pub open spec fn start_first(host: HostView) -> StepView<StartView, ()> {
    start_save(host, save_first(host))
}

/// How starting goes on from `phase` when the reply `r` has come. A server that runs already
/// is left alone.
pub open spec fn start_step(
    host: HostView,
    config: ConfigView,
    id: Text,
    phase: StartView,
    r: ReplyView,
) -> StepView<StartView, ()> {
    match phase {
        StartView::Save(p) => start_save(host, save_step(host, config, p, r)),
        StartView::Ensure(p) => start_ensure(ensure_step(host, id, p, r)),
        StartView::Probe => match r.answer() {
            Ok(true) => start_lock(),
            Ok(false) => start_install(host, launch_first(host)),
            Err(m) => fails(m),
        },
        StartView::Install(p) => start_install(
            host,
            launch_step(host, config, Job::Install, p, r),
        ),
        StartView::Enable(p) => start_enable(launch_step(host, config, Job::EnablePlugin, p, r)),
        StartView::Mark => match r.done() {
            Ok(_) => start_lock(),
            Err(m) => fails(m),
        },
        StartView::Lock => match r.done() {
            Ok(_) => StepView::Perform(StartView::Poll, EffectView::PollChild),
            Err(m) => fails(m),
        },
        StartView::Poll => match r.child() {
            Ok(ChildState::Running) => succeeds(()),
            Ok(_) => start_serve(launch_first(host)),
            Err(m) => fails(m),
        },
        StartView::Serve(p) => start_serve(launch_step(host, config, Job::Serve, p, r)),
        StartView::Unlock => start_wait(ask(0)),
        StartView::Wait(p) => start_wait(api_step(p, r)),
        StartView::Register(p) => start_register(register_step(host, config, p, r)),
    }
}

fn start_save_step(host: &Host, step: Step<SavePhase, ()>) -> (r: Step<StartPhase, ()>)
    ensures
        r@ == start_save(host@, step@),
{
    match step {
        Step::Perform(p, e) => Step::Perform(StartPhase::Save(p), e),
        Step::Finished(Ok(_)) => start_ensure_step(ensure_runtime(host)),
        Step::Finished(Err(m)) => Step::Finished(Err(m)),
    }
}

fn start_ensure_step(step: Step<EnsurePhase, FilePath>) -> (r: Step<StartPhase, ()>)
    ensures
        r@ == start_ensure(step@),
{
    match step {
        Step::Perform(p, e) => Step::Perform(StartPhase::Ensure(p), e),
        Step::Finished(Ok(_)) => Step::Perform(
            StartPhase::Probe,
            Effect::Exists(initialized_marker_path()),
        ),
        Step::Finished(Err(m)) => Step::Finished(Err(m)),
    }
}

fn start_install_step(host: &Host, step: Step<LaunchPhase, ()>) -> (r: Step<StartPhase, ()>)
    ensures
        r@ == start_install(host@, step@),
{
    match step {
        Step::Perform(p, e) => Step::Perform(StartPhase::Install(p), e),
        Step::Finished(Ok(_)) => start_enable_step(launch(host)),
        Step::Finished(Err(m)) => Step::Finished(Err(m)),
    }
}

fn start_enable_step(step: Step<LaunchPhase, ()>) -> (r: Step<StartPhase, ()>)
    ensures
        r@ == start_enable(step@),
{
    match step {
        Step::Perform(p, e) => Step::Perform(StartPhase::Enable(p), e),
        Step::Finished(Ok(_)) => Step::Perform(
            StartPhase::Mark,
            Effect::WriteText(initialized_marker_path(), "ok".to_owned()),
        ),
        Step::Finished(Err(m)) => Step::Finished(Err(m)),
    }
}

fn start_serve_step(step: Step<LaunchPhase, ()>) -> (r: Step<StartPhase, ()>)
    ensures
        r@ == start_serve(step@),
{
    match step {
        Step::Perform(p, e) => Step::Perform(StartPhase::Serve(p), e),
        Step::Finished(Ok(_)) => Step::Perform(StartPhase::Unlock, Effect::UnlockChild),
        Step::Finished(Err(m)) => Step::Finished(Err(m)),
    }
}

fn start_wait_step(step: Step<ApiPhase, ()>) -> (r: Step<StartPhase, ()>)
    ensures
        r@ == start_wait(step@),
{
    match step {
        Step::Perform(p, e) => Step::Perform(StartPhase::Wait(p), e),
        Step::Finished(Ok(_)) => start_register_step(initialize_nb_environment()),
        Step::Finished(Err(m)) => Step::Finished(Err(m)),
    }
}

fn start_register_step(step: Step<RegisterPhase, ()>) -> (r: Step<StartPhase, ()>)
    ensures
        r@ == start_register(step@),
{
    match step {
        Step::Perform(p, e) => Step::Perform(StartPhase::Register(p), e),
        Step::Finished(r) => Step::Finished(r),
    }
}

/// Begins to start the server.
pub fn start_runtime(host: &Host) -> (r: Step<StartPhase, ()>)
    ensures
        r@ == start_first(host@),
{
    start_save_step(host, save_config_file(host))
}

/// Goes on with starting from `phase` when the reply has come. `id` tells this replacement
/// of the runtime, should there be one, from every other.
pub fn start_runtime_next(
    host: &Host,
    config: &DatabaseConfig,
    id: &str,
    phase: StartPhase,
    reply: Reply,
) -> (r: Step<StartPhase, ()>)
    ensures
        r@ == start_step(host@, config@, id@, phase@, reply@),
{
    match phase {
        StartPhase::Save(p) => start_save_step(host, save_config_next(host, config, p, reply)),
        StartPhase::Ensure(p) => start_ensure_step(ensure_next(host, id, p, reply)),
        StartPhase::Probe => match reply.answer() {
            Ok(there) => if there {
                Step::Perform(StartPhase::Lock, Effect::LockChild)
            } else {
                start_install_step(host, launch(host))
            },
            Err(m) => Step::Finished(Err(m)),
        },
        StartPhase::Install(p) => start_install_step(
            host,
            launch_next(host, config, Job::Install, p, reply),
        ),
        StartPhase::Enable(p) => start_enable_step(
            launch_next(host, config, Job::EnablePlugin, p, reply),
        ),
        StartPhase::Mark => match reply.done() {
            Ok(_) => Step::Perform(StartPhase::Lock, Effect::LockChild),
            Err(m) => Step::Finished(Err(m)),
        },
        StartPhase::Lock => match reply.done() {
            Ok(_) => Step::Perform(StartPhase::Poll, Effect::PollChild),
            Err(m) => Step::Finished(Err(m)),
        },
        StartPhase::Poll => match reply.child() {
            Ok(ChildState::Running) => Step::Finished(Ok(())),
            Ok(_) => start_serve_step(launch(host)),
            Err(m) => Step::Finished(Err(m)),
        },
        StartPhase::Serve(p) => start_serve_step(
            launch_next(host, config, Job::Serve, p, reply),
        ),
        StartPhase::Unlock => start_wait_step(wait_for_api()),
        StartPhase::Wait(p) => start_wait_step(wait_for_api_next(p, reply)),
        StartPhase::Register(p) => start_register_step(
            initialize_nb_environment_next(host, config, p, reply),
        ),
    }
}

} // verus!
