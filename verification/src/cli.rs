//! Installing the `nb` command on request.
use vstd::prelude::*;

use crate::effect::{fails, succeeds, Effect, EffectView, Reply, ReplyView, Step, StepView};
use crate::layout::{launcher_file, runtime, Host, HostView};
use crate::path::{FilePath, PathView};
use crate::register::{
    install_first, install_nb_launcher, install_nb_launcher_next, install_step, InstallPhase,
    InstallView,
};
use crate::text::Text;
use crate::upgrade::{ensure_first, ensure_next, ensure_runtime, ensure_step, EnsurePhase};

verus! {

/// What the procedure waits for.
#[derive(Debug, PartialEq, Eq)]
pub enum CliPhase {
    Ensure(EnsurePhase),
    Install(InstallPhase),
    Display,
}

/// The mathematical model of a `CliPhase`.
pub enum CliView {
    Ensure(EnsurePhase),
    Install(InstallView),
    Display,
}

impl View for CliPhase {
    type V = CliView;

    open spec fn view(&self) -> CliView {
        match self {
            CliPhase::Ensure(p) => CliView::Ensure(*p),
            CliPhase::Install(p) => CliView::Install(p@),
            CliPhase::Display => CliView::Display,
        }
    }
}

/// A step of making sure of the runtime; the launcher comes next.
pub open spec fn cli_ensure(host: HostView, step: StepView<EnsurePhase, PathView>) -> StepView<
    CliView,
    Text,
> {
    match step {
        StepView::Perform(p, e) => StepView::Perform(CliView::Ensure(p), e),
        StepView::Finished(Ok(_)) => cli_install(install_first(host)),
        StepView::Finished(Err(m)) => fails(m),
    }
}

/// A step of installing the launcher; showing its path comes next.
pub open spec fn cli_install(step: StepView<InstallView, PathView>) -> StepView<CliView, Text> {
    match step {
        StepView::Perform(p, e) => StepView::Perform(CliView::Install(p), e),
        StepView::Finished(Ok(path)) => StepView::Perform(
            CliView::Display,
            EffectView::Display(path),
        ),
        StepView::Finished(Err(m)) => fails(m),
    }
}

/// The first thing to do: make sure of the runtime.
pub open spec fn cli_first(host: HostView) -> StepView<CliView, Text> {
    cli_ensure(host, ensure_first(host))
}

/// How the procedure goes on from `phase` when the reply `r` has come.
pub open spec fn cli_step(host: HostView, id: Text, phase: CliView, r: ReplyView) -> StepView<
    CliView,
    Text,
> {
    match phase {
        CliView::Ensure(p) => cli_ensure(host, ensure_step(host, id, p, r)),
        CliView::Install(p) => cli_install(install_step(host, p, r)),
        CliView::Display => StepView::Finished(r.text()),
    }
}

fn cli_ensure_step(host: &Host, step: Step<EnsurePhase, FilePath>) -> (r: Step<CliPhase, String>)
    ensures
        r@ == cli_ensure(host@, step@),
{
    match step {
        Step::Perform(p, e) => Step::Perform(CliPhase::Ensure(p), e),
        Step::Finished(Ok(_)) => cli_install_step(install_nb_launcher(host)),
        Step::Finished(Err(m)) => Step::Finished(Err(m)),
    }
}

fn cli_install_step(step: Step<InstallPhase, FilePath>) -> (r: Step<CliPhase, String>)
    ensures
        r@ == cli_install(step@),
{
    match step {
        Step::Perform(p, e) => Step::Perform(CliPhase::Install(p), e),
        Step::Finished(Ok(path)) => Step::Perform(CliPhase::Display, Effect::Display(path)),
        Step::Finished(Err(m)) => Step::Finished(Err(m)),
    }
}

/// Begins to install the `nb` command. The procedure ends with the path of the launcher.
pub fn install_nb_cli(host: &Host) -> (r: Step<CliPhase, String>)
    ensures
        r@ == cli_first(host@),
{
    cli_ensure_step(host, ensure_runtime(host))
}

/// Goes on from `phase` when the reply has come.
pub fn install_nb_cli_next(host: &Host, id: &str, phase: CliPhase, reply: Reply) -> (r: Step<
    CliPhase,
    String,
>)
    ensures
        r@ == cli_step(host@, id@, phase@, reply@),
{
    match phase {
        CliPhase::Ensure(p) => cli_ensure_step(host, ensure_next(host, id, p, reply)),
        CliPhase::Install(p) => cli_install_step(install_nb_launcher_next(host, p, reply)),
        CliPhase::Display => Step::Finished(reply.text()),
    }
}

/// The `nb` command is installed only when the runtime is in its place, and the path that is
/// shown in the end is that of the launcher, after the launcher has been installed.
pub proof fn law_shown_path_is_the_launcher(
    host: HostView,
    id: Text,
    phase: CliView,
    r: ReplyView,
    shown: Text,
)
    ensures
        cli_step(host, id, phase, r) == succeeds::<CliView, Text>(shown) <==> phase
            == CliView::Display && r.text() == Ok::<Text, Text>(shown),
        cli_step(host, id, phase, r) matches StepView::Perform(CliView::Display, e) ==> {
            &&& e == EffectView::Display(launcher_file())
            &&& phase matches CliView::Install(p) && install_step(host, p, r) == succeeds::<
                InstallView,
                PathView,
            >(launcher_file())
        },
        cli_step(host, id, phase, r) matches StepView::Perform(CliView::Install(_), _) ==> {
            ||| phase is Install
            ||| phase matches CliView::Ensure(p) && ensure_step(host, id, p, r) == succeeds::<
                EnsurePhase,
                PathView,
            >(runtime())
        },
{
}

} // verus!
