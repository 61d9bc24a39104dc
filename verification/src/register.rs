//! The `nb` command: its launcher, and registering the local server with it.
use vstd::prelude::*;

use crate::command::{launcher_script, launcher_text, Job};
use crate::config::{ConfigView, DatabaseConfig};
use crate::effect::{
    asked, fails, lemma_run_prefix, run, succeeds, Effect, EffectView, Reply, ReplyView, Step,
    StepView,
};
use crate::launch::{launch, launch_first, launch_next, launch_step, LaunchPhase, LaunchView};
use crate::layout::{
    bin_dir, bin_dir_path, bundled_resource, home_unknown, launcher_file, launcher_file_path,
    nb_marker, nb_marker_path, need_home, need_resources, resource, runtime, runtime_path, Host,
    HostView,
};
use crate::path::{FilePath, PathView};
use crate::text::Text;

verus! {

/// The permissions of the launcher: everyone may run it, and its owner may change it.
pub const PROGRAM_MODE: u32 = 0o755;

/// What installing the launcher waits for.
#[derive(Debug, PartialEq, Eq)]
pub enum InstallPhase {
    FindNode,
    CreateBin(bool),
    DisplayRuntime(bool),
    DisplayNode(String),
    Write,
    Protect,
}

/// The mathematical model of an `InstallPhase`.
pub enum InstallView {
    FindNode,
    CreateBin(bool),
    DisplayRuntime(bool),
    DisplayNode(Text),
    Write,
    Protect,
}

impl View for InstallPhase {
    type V = InstallView;

    open spec fn view(&self) -> InstallView {
        match self {
            InstallPhase::FindNode => InstallView::FindNode,
            InstallPhase::CreateBin(n) => InstallView::CreateBin(*n),
            InstallPhase::DisplayRuntime(n) => InstallView::DisplayRuntime(*n),
            InstallPhase::DisplayNode(t) => InstallView::DisplayNode(t@),
            InstallPhase::Write => InstallView::Write,
            InstallPhase::Protect => InstallView::Protect,
        }
    }
}

/// The first thing to do: look for Node.js.
pub open spec fn install_first(host: HostView) -> StepView<InstallView, PathView> {
    match host.resources {
        Ok(_) => StepView::Perform(
            InstallView::FindNode,
            EffectView::Exists(resource("node"@, true)),
        ),
        Err(m) => fails(m),
    }
}

/// How installing the launcher goes on from `phase` when the reply `r` has come.
pub open spec fn install_step(host: HostView, phase: InstallView, r: ReplyView) -> StepView<
    InstallView,
    PathView,
> {
    match phase {
        InstallView::FindNode => match r.answer() {
            Ok(nested) => if host.home_found {
                StepView::Perform(
                    InstallView::CreateBin(nested),
                    EffectView::CreateDirs(bin_dir()),
                )
            } else {
                fails(home_unknown())
            },
            Err(m) => fails(m),
        },
        InstallView::CreateBin(nested) => match r.done() {
            Ok(_) => StepView::Perform(
                InstallView::DisplayRuntime(nested),
                EffectView::Display(runtime()),
            ),
            Err(m) => fails(m),
        },
        InstallView::DisplayRuntime(nested) => match r.text() {
            Ok(t) => StepView::Perform(
                InstallView::DisplayNode(t),
                EffectView::Display(resource("node"@, nested)),
            ),
            Err(m) => fails(m),
        },
        InstallView::DisplayNode(shown_runtime) => match r.text() {
            Ok(shown_node) => StepView::Perform(
                InstallView::Write,
                EffectView::WriteText(launcher_file(), launcher_script(shown_runtime, shown_node)),
            ),
            Err(m) => fails(m),
        },
        InstallView::Write => match r.done() {
            Ok(_) => if host.unix {
                StepView::Perform(
                    InstallView::Protect,
                    EffectView::SetMode(launcher_file(), PROGRAM_MODE),
                )
            } else {
                succeeds(launcher_file())
            },
            Err(m) => fails(m),
        },
        InstallView::Protect => match r.done() {
            Ok(_) => succeeds(launcher_file()),
            Err(m) => fails(m),
        },
    }
}

/// Begins to install the launcher.
pub fn install_nb_launcher(host: &Host) -> (r: Step<InstallPhase, FilePath>)
    ensures
        r@ == install_first(host@),
{
    match need_resources(host) {
        Ok(_) => Step::Perform(
            InstallPhase::FindNode,
            Effect::Exists(bundled_resource("node", true)),
        ),
        Err(m) => Step::Finished(Err(m)),
    }
}

/// Goes on with installing the launcher from `phase` when the reply has come.
pub fn install_nb_launcher_next(host: &Host, phase: InstallPhase, reply: Reply) -> (r: Step<
    InstallPhase,
    FilePath,
>)
    ensures
        r@ == install_step(host@, phase@, reply@),
{
    match phase {
        InstallPhase::FindNode => match reply.answer() {
            Ok(nested) => match need_home(host) {
                Ok(_) => Step::Perform(
                    InstallPhase::CreateBin(nested),
                    Effect::CreateDirs(bin_dir_path()),
                ),
                Err(m) => Step::Finished(Err(m)),
            },
            Err(m) => Step::Finished(Err(m)),
        },
        InstallPhase::CreateBin(nested) => match reply.done() {
            Ok(_) => Step::Perform(
                InstallPhase::DisplayRuntime(nested),
                Effect::Display(runtime_path()),
            ),
            Err(m) => Step::Finished(Err(m)),
        },
        InstallPhase::DisplayRuntime(nested) => match reply.text() {
            Ok(t) => Step::Perform(
                InstallPhase::DisplayNode(t),
                Effect::Display(bundled_resource("node", nested)),
            ),
            Err(m) => Step::Finished(Err(m)),
        },
        InstallPhase::DisplayNode(shown_runtime) => match reply.text() {
            Ok(shown_node) => Step::Perform(
                InstallPhase::Write,
                Effect::WriteText(
                    launcher_file_path(),
                    launcher_text(shown_runtime.as_str(), shown_node.as_str()),
                ),
            ),
            Err(m) => Step::Finished(Err(m)),
        },
        InstallPhase::Write => match reply.done() {
            Ok(_) => if host.unix {
                Step::Perform(
                    InstallPhase::Protect,
                    Effect::SetMode(launcher_file_path(), PROGRAM_MODE),
                )
            } else {
                Step::Finished(Ok(launcher_file_path()))
            },
            Err(m) => Step::Finished(Err(m)),
        },
        InstallPhase::Protect => match reply.done() {
            Ok(_) => Step::Finished(Ok(launcher_file_path())),
            Err(m) => Step::Finished(Err(m)),
        },
    }
}

/// What registering waits for.
#[derive(Debug, PartialEq, Eq)]
pub enum RegisterPhase {
    Probe,
    Install(InstallPhase),
    Launch(LaunchPhase),
    Mark,
}

/// The mathematical model of a `RegisterPhase`.
pub enum RegisterView {
    Probe,
    Install(InstallView),
    Launch(LaunchView),
    Mark,
}

impl View for RegisterPhase {
    type V = RegisterView;

    open spec fn view(&self) -> RegisterView {
        match self {
            RegisterPhase::Probe => RegisterView::Probe,
            RegisterPhase::Install(p) => RegisterView::Install(p@),
            RegisterPhase::Launch(p) => RegisterView::Launch(p@),
            RegisterPhase::Mark => RegisterView::Mark,
        }
    }
}

/// The first thing to do: see whether the server is registered.
pub open spec fn register_first() -> StepView<RegisterView, ()> {
    StepView::Perform(RegisterView::Probe, EffectView::Exists(nb_marker()))
}

/// A step of running the registration as a step of registering, which ends with the mark.
pub open spec fn register_launch(step: StepView<LaunchView, ()>) -> StepView<RegisterView, ()> {
    match step {
        StepView::Perform(p, e) => StepView::Perform(RegisterView::Launch(p), e),
        StepView::Finished(Ok(_)) => StepView::Perform(
            RegisterView::Mark,
            EffectView::WriteText(nb_marker(), "ok"@),
        ),
        StepView::Finished(Err(m)) => fails(m),
    }
}

/// A step of installing the launcher as a step of registering, which goes on with the
/// registration itself.
pub open spec fn register_install(
    host: HostView,
    step: StepView<InstallView, PathView>,
) -> StepView<RegisterView, ()> {
    match step {
        StepView::Perform(p, e) => StepView::Perform(RegisterView::Install(p), e),
        StepView::Finished(Ok(_)) => register_launch(launch_first(host)),
        StepView::Finished(Err(m)) => fails(m),
    }
}

/// How registering goes on from `phase` when the reply `r` has come.
pub open spec fn register_step(
    host: HostView,
    config: ConfigView,
    phase: RegisterView,
    r: ReplyView,
) -> StepView<RegisterView, ()> {
    match phase {
        RegisterView::Probe => match r.answer() {
            Ok(true) => succeeds(()),
            Ok(false) => register_install(host, install_first(host)),
            Err(m) => fails(m),
        },
        RegisterView::Install(p) => register_install(host, install_step(host, p, r)),
        RegisterView::Launch(p) => register_launch(
            launch_step(host, config, Job::Register, p, r),
        ),
        RegisterView::Mark => StepView::Finished(r.done()),
    }
}

/// Begins to register the local server with the `nb` command.
pub fn initialize_nb_environment() -> (r: Step<RegisterPhase, ()>)
    ensures
        r@ == register_first(),
{
    Step::Perform(RegisterPhase::Probe, Effect::Exists(nb_marker_path()))
}

fn register_launch_step(step: Step<LaunchPhase, ()>) -> (r: Step<RegisterPhase, ()>)
    ensures
        r@ == register_launch(step@),
{
    match step {
        Step::Perform(p, e) => Step::Perform(RegisterPhase::Launch(p), e),
        Step::Finished(Ok(_)) => Step::Perform(
            RegisterPhase::Mark,
            Effect::WriteText(nb_marker_path(), "ok".to_owned()),
        ),
        Step::Finished(Err(m)) => Step::Finished(Err(m)),
    }
}

fn register_install_step(host: &Host, step: Step<InstallPhase, FilePath>) -> (r: Step<
    RegisterPhase,
    (),
>)
    ensures
        r@ == register_install(host@, step@),
{
    match step {
        Step::Perform(p, e) => Step::Perform(RegisterPhase::Install(p), e),
        Step::Finished(Ok(_)) => register_launch_step(launch(host)),
        Step::Finished(Err(m)) => Step::Finished(Err(m)),
    }
}

/// Goes on with registering from `phase` when the reply has come.
pub fn initialize_nb_environment_next(
    host: &Host,
    config: &DatabaseConfig,
    phase: RegisterPhase,
    reply: Reply,
) -> (r: Step<RegisterPhase, ()>)
    ensures
        r@ == register_step(host@, config@, phase@, reply@),
{
    match phase {
        RegisterPhase::Probe => match reply.answer() {
            Ok(there) => if there {
                Step::Finished(Ok(()))
            } else {
                register_install_step(host, install_nb_launcher(host))
            },
            Err(m) => Step::Finished(Err(m)),
        },
        RegisterPhase::Install(p) => register_install_step(
            host,
            install_nb_launcher_next(host, p, reply),
        ),
        RegisterPhase::Launch(p) => register_launch_step(
            launch_next(host, config, Job::Register, p, reply),
        ),
        RegisterPhase::Mark => Step::Finished(reply.done()),
    }
}

/// The launcher is installed before the command that registers the server runs, the server is
/// marked as registered only when that command has succeeded, and registering succeeds only with
/// the mark.
pub proof fn law_registration_precedes_its_mark(
    host: HostView,
    config: ConfigView,
    phase: RegisterView,
    r: ReplyView,
)
    ensures
        asked(register_step(host, config, phase, r)) == Some(
            EffectView::WriteText(nb_marker(), "ok"@),
        ) ==> phase == RegisterView::Launch(LaunchView::Execute) && r.status() == Ok::<bool, Text>(
            true,
        ),
        register_step(host, config, phase, r) matches StepView::Perform(
            RegisterView::Launch(LaunchView::Execute),
            e,
        ) ==> (e matches EffectView::Run(c) && c.args == seq![Job::Register.script()]
            + Job::Register.args()),
        register_step(host, config, phase, r) matches StepView::Perform(RegisterView::Launch(_), _)
            ==> {
            ||| phase is Launch
            ||| phase matches RegisterView::Install(p) && install_step(host, p, r) == succeeds::<
                InstallView,
                PathView,
            >(launcher_file())
        },
        register_step(host, config, phase, r) matches StepView::Perform(RegisterView::Mark, e) ==> {
            &&& e == EffectView::WriteText(nb_marker(), "ok"@)
            &&& phase == RegisterView::Launch(LaunchView::Execute)
            &&& r.status() == Ok::<bool, Text>(true)
        },
        register_step(host, config, phase, r) matches StepView::Finished(Ok(_)) ==> {
            ||| phase is Probe && r.answer() == Ok::<bool, Text>(true)
            ||| phase is Mark && r.done() is Ok
        },
{
    reveal_strlit("bin");
    reveal_strlit("runtime");
    assert(nb_marker().parts.len() == 3);
    assert(nb_marker().parts[1][0] == 'r');
    assert(launcher_file().parts[1] == bin_dir().parts[1]);
    assert(bin_dir().parts[1][0] == 'b');
}

/// Where installing the launcher stands after all of `replies`.
pub open spec fn installed(host: HostView, replies: Seq<ReplyView>) -> StepView<
    InstallView,
    PathView,
> {
    run(|s: InstallView, r: ReplyView| install_step(host, s, r), install_first(host), replies)
}

/// The launcher that the replies lead to: the third and the fourth say how the paths of the
/// runtime and of Node.js read.
pub open spec fn told_launcher(replies: Seq<ReplyView>) -> Text {
    launcher_script(replies[2].text()->Ok_0, replies[3].text()->Ok_0)
}

/// What is known of a run of installing the launcher.
spec fn install_past(host: HostView, replies: Seq<ReplyView>) -> bool {
    let n = replies.len();
    let written = n >= 5 && replies[4].done() is Ok;
    match installed(host, replies) {
        StepView::Perform(p, e) => match p {
            InstallView::FindNode => n == 0,
            InstallView::CreateBin(b) => n == 1 && replies[0].answer() == Ok::<bool, Text>(b),
            InstallView::DisplayRuntime(b) => n == 2 && replies[0].answer() == Ok::<bool, Text>(b)
                && e == EffectView::Display(runtime()),
            InstallView::DisplayNode(t) => n == 3 && replies[2].text() == Ok::<Text, Text>(t) && e
                == EffectView::Display(
                resource("node"@, replies[0].answer() == Ok::<bool, Text>(true)),
            ),
            InstallView::Write => n == 4 && e == EffectView::WriteText(
                launcher_file(),
                told_launcher(replies),
            ),
            InstallView::Protect => n == 5 && written && e == EffectView::SetMode(
                launcher_file(),
                PROGRAM_MODE,
            ),
        },
        StepView::Finished(Ok(p)) => {
            &&& p == launcher_file()
            &&& written
            &&& host.unix ==> n >= 6 && replies[5].done() is Ok
        },
        StepView::Finished(Err(_)) => true,
    }
}

proof fn lemma_install_past(host: HostView, replies: Seq<ReplyView>)
    ensures
        install_past(host, replies),
    decreases replies.len(),
{
    if replies.len() > 0 {
        lemma_install_past(host, replies.drop_last());
    }
}

/// Installing the launcher succeeds only when the script that enters the runtime and runs the
/// bundled Node.js has been written to `~/.nocobase-desktop/bin/nb`, and made a program where
/// files have modes.
pub proof fn law_success_means_the_launcher_is_there(
    host: HostView,
    replies: Seq<ReplyView>,
    path: PathView,
)
    requires
        installed(host, replies) == succeeds::<InstallView, PathView>(path),
    ensures
        path == launcher_file(),
        replies.len() >= 5,
        asked(installed(host, replies.take(2))) == Some(EffectView::Display(runtime())),
        asked(installed(host, replies.take(3))) == Some(
            EffectView::Display(resource("node"@, replies[0].answer() == Ok::<bool, Text>(true))),
        ),
        asked(installed(host, replies.take(4))) == Some(
            EffectView::WriteText(launcher_file(), told_launcher(replies)),
        ),
        replies[4].done() is Ok,
        host.unix ==> replies.len() >= 6 && replies[5].done() is Ok && asked(
            installed(host, replies.take(5)),
        ) == Some(EffectView::SetMode(launcher_file(), PROGRAM_MODE)),
{
    let next = |s: InstallView, r: ReplyView| install_step(host, s, r);
    lemma_install_past(host, replies);
    assert forall|k: int| 2 <= k <= 5 && k <= replies.len() implies #[trigger] install_past(
        host,
        replies.take(k),
    ) && (installed(host, replies.take(k)) is Finished ==> installed(host, replies) == installed(
        host,
        replies.take(k),
    )) by {
        lemma_install_past(host, replies.take(k));
        lemma_run_prefix(next, install_first(host), replies, k);
    }
    assert(install_past(host, replies.take(2)));
    assert(install_past(host, replies.take(3)));
    assert(install_past(host, replies.take(4)));
    assert(install_past(host, replies.take(5)));
}

} // verus!
