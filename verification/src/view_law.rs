//! The models keep all that the values hold, and the executable steps are those of the models.
use vstd::prelude::*;

use crate::api::{api_step, ask, wait_for_api, wait_for_api_next, ApiPhase};
use crate::cli::{cli_first, cli_step, install_nb_cli, install_nb_cli_next, CliPhase};
use crate::command::{EnvValue, EnvValueView, EnvVar, Job, NodeCommand, ProcessOutput};
use crate::config::{ConfigView, DatabaseConfig};
use crate::config_store::{
    is_fresh, load_config_file, load_config_next, load_first, load_step, save_config_file,
    save_config_next, save_first, save_step, LoadPhase, SavePhase,
};
use crate::effect::{
    misfit, Effect, EffectView, HttpProbe, PageWindow, Reply, ReplyView, Step, StepView,
};
use crate::launch::{launch, launch_first, launch_next, launch_step, LaunchPhase};
use crate::layout::Host;
use crate::path::FilePath;
use crate::register::{
    initialize_nb_environment, initialize_nb_environment_next, install_first, install_nb_launcher,
    install_nb_launcher_next, install_step, register_first, register_step, InstallPhase,
    RegisterPhase,
};
use crate::start::{start_first, start_runtime, start_runtime_next, start_step, StartPhase};
use crate::status::{
    runtime_status, runtime_status_next, status_first, status_step, RuntimeStatus, StatusPhase,
};
use crate::stop::{
    close_first, close_step, end_first, end_step, on_window_event, on_window_event_next,
    stop_first, stop_runtime, stop_runtime_next, stop_step, terminate_child, terminate_child_next,
    ClosePhase, EndPhase, StopPhase,
};
use crate::text::texts;
use crate::upgrade::{ensure_first, ensure_next, ensure_runtime, ensure_step, EnsurePhase};
use crate::window::{
    open_nocobase, open_nocobase_next, window_first, window_step, WindowPhase,
};

verus! {

/// The model of a configuration, of a host, of a path and of a status holds every field.
pub proof fn law_models_hold_every_field(
    config: DatabaseConfig,
    host: Host,
    path: FilePath,
    status: RuntimeStatus,
)
    ensures
        config@.dialect == config.dialect@,
        config@.host == config.host@,
        config@.port == config.port,
        config@.database == config.database@,
        config@.user == config.user@,
        config@.password == config.password@,
        config@.app_key == config.app_key@,
        host@.unix == host.unix,
        host@.home_found == host.home_found,
        host@.resources is Ok <==> host.resources is Ok,
        host.resources matches Err(m) ==> host@.resources->Err_0 == m@,
        host@.version == host.version@,
        path@.root == path.root,
        path@.parts.len() == path.parts@.len(),
        forall|i: int| 0 <= i < path.parts@.len() ==> #[trigger] path@.parts[i] == path.parts@[i]@,
        status@.running == status.running,
        status@.url == status.url@,
        status@.runtime_ready == status.runtime_ready,
        status@.log_path == status.log_path@,
{
}

/// The model of a command, of a request and of a window holds every field.
pub proof fn law_requests_hold_every_field(
    command: NodeCommand,
    var: EnvVar,
    output: ProcessOutput,
    probe: HttpProbe,
    window: PageWindow,
)
    ensures
        command@.program == command.program@,
        command@.dir == command.dir@,
        command@.own_group == command.own_group,
        command@.env.len() == command.env@.len(),
        forall|i: int|
            0 <= i < command.env@.len() ==> #[trigger] command@.env[i] == command.env@[i]@,
        command@.args.len() == command.args@.len(),
        forall|i: int|
            0 <= i < command.args@.len() ==> #[trigger] command@.args[i] == command.args@[i]@,
        var@.name == var.name@,
        match var.value {
            EnvValue::Text(t) => var@.value == EnvValueView::Text(t@),
            EnvValue::Path(p) => var@.value == EnvValueView::Path(p@),
        },
        output@.success == output.success,
        output@.stdout == output.stdout@,
        probe@.port == probe.port,
        probe@.connect_millis == probe.connect_millis,
        probe@.read_millis == probe.read_millis,
        probe@.request == probe.request@,
        window@.label == window.label@,
        window@.title == window.title@,
        window@.url == window.url@,
        window@.width == window.width,
        window@.height == window.height,
        window@.page_script == window.page_script@,
{
}

/// The model of an effect is that effect, with all that it asks for.
pub proof fn law_effects_are_what_they_ask(e: Effect)
    ensures
        match e {
            Effect::Exists(p) => e@ == EffectView::Exists(p@),
            Effect::ReadText(p) => e@ == EffectView::ReadText(p@),
            Effect::ReadBytes(p) => e@ == EffectView::ReadBytes(p@),
            Effect::CreateDirs(p) => e@ == EffectView::CreateDirs(p@),
            Effect::RemoveTree(p) => e@ == EffectView::RemoveTree(p@),
            Effect::Rename(a, b) => e@ == EffectView::Rename(a@, b@),
            Effect::WriteText(p, t) => e@ == EffectView::WriteText(p@, t@),
            Effect::WriteBytes(p, b) => e@ == EffectView::WriteBytes(p@, b@),
            Effect::SetMode(p, m) => e@ == EffectView::SetMode(p@, m),
            Effect::Unpack(a, p) => e@ == EffectView::Unpack(a@, p@),
            Effect::EncodeConfig(c) => e@ == EffectView::EncodeConfig(c@),
            Effect::DecodeConfig(b) => e@ == EffectView::DecodeConfig(b@),
            Effect::OpenLog(p) => e@ == EffectView::OpenLog(p@),
            Effect::Capture(p, a) => e@ == EffectView::Capture(p@, texts(a@)),
            Effect::Run(c) => e@ == EffectView::Run(c@),
            Effect::Spawn(c) => e@ == EffectView::Spawn(c@),
            Effect::Connect(p, m) => e@ == EffectView::Connect(p, m),
            Effect::Request(q) => e@ == EffectView::Request(q@),
            Effect::Sleep(m) => e@ == EffectView::Sleep(m),
            Effect::LockChild => e@ == EffectView::LockChild,
            Effect::UnlockChild => e@ == EffectView::UnlockChild,
            Effect::PollChild => e@ == EffectView::PollChild,
            Effect::ForgetChild => e@ == EffectView::ForgetChild,
            Effect::TakeChild => e@ == EffectView::TakeChild,
            Effect::SendSignal(t, s) => e@ == EffectView::SendSignal(t, s),
            Effect::PollTaken => e@ == EffectView::PollTaken,
            Effect::KillTaken => e@ == EffectView::KillTaken,
            Effect::WaitTaken => e@ == EffectView::WaitTaken,
            Effect::Display(p) => e@ == EffectView::Display(p@),
            Effect::FindWindow(l) => e@ == EffectView::FindWindow(l@),
            Effect::Navigate(l, u) => e@ == EffectView::Navigate(l@, u@),
            Effect::FocusWindow(l) => e@ == EffectView::FocusWindow(l@),
            Effect::OpenWindow(w) => e@ == EffectView::OpenWindow(w@),
            Effect::Exit(n) => e@ == EffectView::Exit(n),
        },
{
}

/// The model of a reply is that reply, with all that it tells.
pub proof fn law_replies_are_what_they_tell(r: Reply)
    ensures
        match r {
            Reply::Done(Ok(_)) => r@ == ReplyView::Done(Ok(())),
            Reply::Done(Err(m)) => r@ == ReplyView::Done(Err(m@)),
            Reply::Answer(b) => r@ == ReplyView::Answer(b),
            Reply::Text(Ok(t)) => r@ == ReplyView::Text(Ok(t@)),
            Reply::Text(Err(m)) => r@ == ReplyView::Text(Err(m@)),
            Reply::Bytes(Ok(b)) => r@ == ReplyView::Bytes(Ok(b@)),
            Reply::Bytes(Err(m)) => r@ == ReplyView::Bytes(Err(m@)),
            Reply::Config(Ok(c)) => r@ == ReplyView::Config(Ok(c@)),
            Reply::Config(Err(m)) => r@ == ReplyView::Config(Err(m@)),
            Reply::Output(Some(o)) => r@ == ReplyView::Output(Some(o@)),
            Reply::Output(None) => r@ == ReplyView::Output(None),
            Reply::Status(Ok(b)) => r@ == ReplyView::Status(Ok(b)),
            Reply::Status(Err(m)) => r@ == ReplyView::Status(Err(m@)),
            Reply::Child(Ok(c)) => r@ == ReplyView::Child(Ok(c)),
            Reply::Child(Err(m)) => r@ == ReplyView::Child(Err(m@)),
        },
        misfit() == "the reply does not fit the request"@,
{
}

/// The model of a step is that step: the state, the effect and the result are its own.
pub proof fn law_steps_are_what_they_say<S: View, T: View>(step: Step<S, T>)
    ensures
        match step {
            Step::Perform(s, e) => step@ == StepView::<S::V, T::V>::Perform(s@, e@),
            Step::Finished(Ok(v)) => step@ == StepView::<S::V, T::V>::Finished(Ok(v@)),
            Step::Finished(Err(m)) => step@ == StepView::<S::V, T::V>::Finished(Err(m@)),
        },
{
}

/// The code saves as the model of saving does, which the laws of saving speak of.
pub proof fn law_code_saves_as_its_model(
    host: &Host,
    config: &DatabaseConfig,
    phase: SavePhase,
    reply: Reply,
    begun: Step<SavePhase, ()>,
    r: Step<SavePhase, ()>,
)
    requires
        call_ensures(save_config_file, (host,), begun),
        call_ensures(save_config_next, (host, config, phase, reply), r),
    ensures
        begun@ == save_first(host@),
        r@ == save_step(host@, config@, phase, reply@),
{
}

/// The code loads as its model does, with a fresh configuration of the documented values.
pub proof fn law_code_loads_as_its_model(
    host: &Host,
    phase: LoadPhase,
    reply: Reply,
    begun: Step<LoadPhase, DatabaseConfig>,
    r: Step<LoadPhase, DatabaseConfig>,
)
    requires
        call_ensures(load_config_file, (host,), begun),
        call_ensures(load_config_next, (phase, reply), r),
    ensures
        begun@ == load_first(host@),
        exists|fresh: ConfigView|
            is_fresh(fresh) && r@ == #[trigger] load_step(phase, reply@, fresh),
{
}

/// The code runs Node.js as its model does.
pub proof fn law_code_launches_as_its_model(
    host: &Host,
    config: &DatabaseConfig,
    job: Job,
    phase: LaunchPhase,
    reply: Reply,
    begun: Step<LaunchPhase, ()>,
    r: Step<LaunchPhase, ()>,
)
    requires
        call_ensures(launch, (host,), begun),
        call_ensures(launch_next, (host, config, job, phase, reply), r),
    ensures
        begun@ == launch_first(host@),
        r@ == launch_step(host@, config@, job, phase@, reply@),
{
}

/// The code waits for the server as its model does.
pub proof fn law_code_waits_as_its_model(
    phase: ApiPhase,
    reply: Reply,
    begun: Step<ApiPhase, ()>,
    r: Step<ApiPhase, ()>,
)
    requires
        call_ensures(wait_for_api, (), begun),
        call_ensures(wait_for_api_next, (phase, reply), r),
    ensures
        begun@ == ask(0),
        r@ == api_step(phase, reply@),
{
}

/// The code replaces the runtime as its model does.
pub proof fn law_code_replaces_as_its_model(
    host: &Host,
    id: &str,
    phase: EnsurePhase,
    reply: Reply,
    begun: Step<EnsurePhase, FilePath>,
    r: Step<EnsurePhase, FilePath>,
)
    requires
        call_ensures(ensure_runtime, (host,), begun),
        call_ensures(ensure_next, (host, id, phase, reply), r),
    ensures
        begun@ == ensure_first(host@),
        r@ == ensure_step(host@, id@, phase, reply@),
{
}

/// The code installs the launcher as its model does.
pub proof fn law_code_installs_as_its_model(
    host: &Host,
    phase: InstallPhase,
    reply: Reply,
    begun: Step<InstallPhase, FilePath>,
    r: Step<InstallPhase, FilePath>,
)
    requires
        call_ensures(install_nb_launcher, (host,), begun),
        call_ensures(install_nb_launcher_next, (host, phase, reply), r),
    ensures
        begun@ == install_first(host@),
        r@ == install_step(host@, phase@, reply@),
{
}

/// The code registers the server as its model does.
pub proof fn law_code_registers_as_its_model(
    host: &Host,
    config: &DatabaseConfig,
    phase: RegisterPhase,
    reply: Reply,
    begun: Step<RegisterPhase, ()>,
    r: Step<RegisterPhase, ()>,
)
    requires
        call_ensures(initialize_nb_environment, (), begun),
        call_ensures(initialize_nb_environment_next, (host, config, phase, reply), r),
    ensures
        begun@ == register_first(),
        r@ == register_step(host@, config@, phase@, reply@),
{
}

/// The code starts the server as its model does.
pub proof fn law_code_starts_as_its_model(
    host: &Host,
    config: &DatabaseConfig,
    id: &str,
    phase: StartPhase,
    reply: Reply,
    begun: Step<StartPhase, ()>,
    r: Step<StartPhase, ()>,
)
    requires
        call_ensures(start_runtime, (host,), begun),
        call_ensures(start_runtime_next, (host, config, id, phase, reply), r),
    ensures
        begun@ == start_first(host@),
        r@ == start_step(host@, config@, id@, phase@, reply@),
{
}

/// The code ends the child as its model does.
pub proof fn law_code_ends_the_child_as_its_model(
    host: &Host,
    phase: EndPhase,
    reply: Reply,
    begun: Step<EndPhase, ()>,
    r: Step<EndPhase, ()>,
)
    requires
        call_ensures(terminate_child, (host,), begun),
        call_ensures(terminate_child_next, (phase, reply), r),
    ensures
        begun@ == end_first(host@),
        r@ == end_step(phase, reply@),
{
}

/// The code stops the server as its model does.
pub proof fn law_code_stops_as_its_model(
    host: &Host,
    phase: StopPhase,
    reply: Reply,
    begun: Step<StopPhase, ()>,
    r: Step<StopPhase, ()>,
)
    requires
        call_ensures(stop_runtime, (), begun),
        call_ensures(stop_runtime_next, (host, phase, reply), r),
    ensures
        begun@ == stop_first(),
        r@ == stop_step(host@, phase, reply@),
{
}

/// The code closes the application as its model does.
pub proof fn law_code_closes_as_its_model(
    host: &Host,
    label: &str,
    destroyed: bool,
    phase: ClosePhase,
    reply: Reply,
    begun: Step<ClosePhase, ()>,
    r: Step<ClosePhase, ()>,
)
    requires
        call_ensures(on_window_event, (label, destroyed), begun),
        call_ensures(on_window_event_next, (host, phase, reply), r),
    ensures
        begun@ == close_first(label@, destroyed),
        r@ == close_step(host@, phase, reply@),
{
}

/// The code tells the status as its model does.
pub proof fn law_code_tells_the_status_as_its_model(
    host: &Host,
    phase: StatusPhase,
    reply: Reply,
    begun: Step<StatusPhase, RuntimeStatus>,
    r: Step<StatusPhase, RuntimeStatus>,
)
    requires
        call_ensures(runtime_status, (), begun),
        call_ensures(runtime_status_next, (host, phase, reply), r),
    ensures
        begun@ == status_first(),
        r@ == status_step(host@, phase, reply@),
{
}

/// The code opens the window as its model does.
pub proof fn law_code_opens_the_window_as_its_model(
    phase: WindowPhase,
    reply: Reply,
    begun: Step<WindowPhase, ()>,
    r: Step<WindowPhase, ()>,
)
    requires
        call_ensures(open_nocobase, (), begun),
        call_ensures(open_nocobase_next, (phase, reply), r),
    ensures
        begun@ == window_first(),
        r@ == window_step(phase, reply@),
{
}

/// The code installs the `nb` command as its model does.
pub proof fn law_code_installs_the_command_as_its_model(
    host: &Host,
    id: &str,
    phase: CliPhase,
    reply: Reply,
    begun: Step<CliPhase, String>,
    r: Step<CliPhase, String>,
)
    requires
        call_ensures(install_nb_cli, (host,), begun),
        call_ensures(install_nb_cli_next, (host, id, phase, reply), r),
    ensures
        begun@ == cli_first(host@),
        r@ == cli_step(host@, id@, phase@, reply@),
{
}

} // verus!
