//! Which effects each procedure asks for, in which order, and how it ends, for all replies.
use vstd::prelude::*;

use crate::api::{api_step, ask, is_ready_response, ApiPhase};
use crate::cli::{cli_ensure, cli_first, cli_install, cli_step, CliView};
use crate::command::{job_command, shell_path, Job, OutputView};
use crate::config::ConfigView;
use crate::config_store::{
    load_first, load_step, save_first, save_rule, save_step, LoadPhase, SavePhase,
};
use crate::effect::{
    run, ChildState, EffectView, ProbeView, ReplyView, Signal, StepView, Target, WindowView,
};
use crate::command_law::{law_launcher_script_is_whole, law_one_port};
use crate::launch::{launch_first, launch_step, LaunchView};
use crate::layout::{
    bin_dir, config_file, data_dir, initialized_marker, launcher_file, log_dir, log_file, nb_marker,
    ready_marker, resource, runtime, storage, storage_backup, HostView,
};
use crate::path::PathView;
use crate::register::{
    install_first, install_step, register_first, register_install, register_launch, register_step,
    InstallView, RegisterView,
};
use crate::start::{
    start_enable, start_ensure, start_first, start_install, start_lock, start_register, start_save,
    start_serve, start_step, start_wait, StartView,
};
use crate::status::{status_first, status_step, StatusPhase, StatusView};
use crate::stop::{
    close_first, close_step, close_stop, end_first, end_step, poll, stop_end, stop_first, stop_step,
    ClosePhase, EndPhase, StopPhase,
};
use crate::talk::{
    ends, heeds, leads, lemma_first, lemma_heeds, lemma_heeds_within, lemma_joined, lemma_within,
    Talk,
};
use crate::text::{trimmed, Text};
use crate::upgrade::{
    ensure_first, ensure_step, leave_marks, leave_nb_mark, leave_ready_mark, probe_runtime,
    EnsurePhase, Kept,
};
use crate::upgrade_law::ensure_rule;
use crate::window::{window_first, window_step, WindowPhase, ADDRESS_BAR_SCRIPT};

verus! {

/// The reply that something has been done.
pub open spec fn done() -> ReplyView {
    ReplyView::Done(Ok(()))
}

/// Saving makes sure of the directory, encodes the configuration that it was given, writes
/// exactly these bytes to the file, and, where files have modes, makes the file private.
pub proof fn law_saving(host: HostView, config: ConfigView, bytes: Seq<u8>)
    ensures
        !host.home_found ==> save_first(host) == StepView::<SavePhase, ()>::Finished(
            Err("无法确定 HOME 目录"@),
        ),
        host.home_found ==> ends(
            save_rule(host, config),
            save_first(host),
            if host.unix {
                seq![
                    (EffectView::CreateDirs(data_dir()), done()),
                    (EffectView::EncodeConfig(config), ReplyView::Bytes(Ok(bytes))),
                    (EffectView::WriteBytes(config_file(), bytes), done()),
                    (EffectView::SetMode(config_file(), 0o600), done()),
                ]
            } else {
                seq![
                    (EffectView::CreateDirs(data_dir()), done()),
                    (EffectView::EncodeConfig(config), ReplyView::Bytes(Ok(bytes))),
                    (EffectView::WriteBytes(config_file(), bytes), done()),
                ]
            },
            Ok(()),
        ),
{
    reveal_with_fuel(leads, 5);
}

/// Saving ends with every failure that it is told.
pub proof fn law_saving_heeds_failures(host: HostView, config: ConfigView, replies: Seq<ReplyView>)
    ensures
        heeds(save_rule(host, config), run(save_rule(host, config), save_first(host), replies)),
{
    lemma_heeds(save_rule(host, config), save_first(host), replies);
}

/// How loading goes on.
pub open spec fn load_rule(fresh: ConfigView) -> spec_fn(LoadPhase, ReplyView) -> StepView<
    LoadPhase,
    ConfigView,
> {
    |s: LoadPhase, r: ReplyView| load_step(s, r, fresh)
}

/// Loading gives the fresh configuration where there is no file, and otherwise reads the file,
/// decodes exactly what was read, and ends with what came of that.
pub proof fn law_loading(
    host: HostView,
    fresh: ConfigView,
    bytes: Seq<u8>,
    decoded: Result<ConfigView, Text>,
)
    ensures
        !host.home_found ==> load_first(host) == StepView::<LoadPhase, ConfigView>::Finished(
            Err("无法确定 HOME 目录"@),
        ),
        host.home_found ==> ends(
            load_rule(fresh),
            load_first(host),
            seq![(EffectView::Exists(config_file()), ReplyView::Answer(false))],
            Ok(fresh),
        ),
        host.home_found ==> ends(
            load_rule(fresh),
            load_first(host),
            seq![
                (EffectView::Exists(config_file()), ReplyView::Answer(true)),
                (EffectView::ReadBytes(config_file()), ReplyView::Bytes(Ok(bytes))),
                (EffectView::DecodeConfig(bytes), ReplyView::Config(decoded)),
            ],
            decoded,
        ),
{
    reveal_with_fuel(leads, 4);
}

/// Loading ends with every failure that it is told.
pub proof fn law_loading_heeds_failures(
    host: HostView,
    fresh: ConfigView,
    replies: Seq<ReplyView>,
)
    ensures
        heeds(load_rule(fresh), run(load_rule(fresh), load_first(host), replies)),
{
    lemma_heeds(load_rule(fresh), load_first(host), replies);
}

/// How running Node.js goes on.
pub open spec fn launch_rule(host: HostView, config: ConfigView, job: Job) -> spec_fn(
    LaunchView,
    ReplyView,
) -> StepView<LaunchView, ()> {
    |s: LaunchView, r: ReplyView| launch_step(host, config, job, s, r)
}

/// The talk until it is known where Node.js lies and what the login shell answers.
pub open spec fn look_round_talk(
    host: HostView,
    nested: bool,
    answer: Option<OutputView>,
) -> Talk {
    if host.unix {
        seq![
            (EffectView::Exists(resource("node"@, true)), ReplyView::Answer(nested)),
            (
                EffectView::Capture(
                    "/bin/zsh"@,
                    seq!["-lc"@, "printf '__NOCOBASE_DESKTOP_PATH__%s' \"$PATH\""@],
                ),
                ReplyView::Output(answer),
            ),
        ]
    } else {
        seq![(EffectView::Exists(resource("node"@, true)), ReplyView::Answer(nested))]
    }
}

/// The talk of one job of Node.js, whose last reply is `last`.
pub open spec fn launch_talk(
    host: HostView,
    config: ConfigView,
    job: Job,
    nested: bool,
    answer: Option<OutputView>,
    last: ReplyView,
) -> Talk {
    let command = job_command(
        resource("node"@, nested),
        runtime(),
        config,
        if host.unix {
            shell_path(answer)
        } else {
            None
        },
        host.unix,
        job,
    );
    look_round_talk(host, nested, answer) + seq![
        (EffectView::CreateDirs(log_dir()), done()),
        (EffectView::OpenLog(log_file()), done()),
        (
            if job == Job::Serve {
                EffectView::Spawn(command)
            } else {
                EffectView::Run(command)
            },
            last,
        ),
    ]
}

/// A job finds Node.js, asks the login shell for its search path where there is one, opens the
/// log, and runs its command with that search path. The server is started and left; any other job
/// runs to its end and succeeds exactly where its command does.
pub proof fn law_launching(
    host: HostView,
    config: ConfigView,
    job: Job,
    nested: bool,
    answer: Option<OutputView>,
    success: bool,
)
    ensures
        host.resources matches Err(m) ==> launch_first(host) == StepView::<
            LaunchView,
            (),
        >::Finished(Err(m)),
        host.resources is Ok && !host.home_found ==> ends(
            launch_rule(host, config, job),
            launch_first(host),
            look_round_talk(host, nested, answer),
            Err("无法确定 HOME 目录"@),
        ),
        host.resources is Ok && host.home_found && job == Job::Serve ==> ends(
            launch_rule(host, config, job),
            launch_first(host),
            launch_talk(host, config, job, nested, answer, done()),
            Ok(()),
        ),
        host.resources is Ok && host.home_found && job != Job::Serve ==> ends(
            launch_rule(host, config, job),
            launch_first(host),
            launch_talk(host, config, job, nested, answer, ReplyView::Status(Ok(success))),
            if success {
                Ok(())
            } else {
                Err(job.failure())
            },
        ),
{
    reveal_with_fuel(leads, 6);
}

/// A job ends with every failure that it is told.
pub proof fn law_launching_heeds_failures(
    host: HostView,
    config: ConfigView,
    job: Job,
    replies: Seq<ReplyView>,
)
    ensures
        heeds(
            launch_rule(host, config, job),
            run(launch_rule(host, config, job), launch_first(host), replies),
        ),
{
    lemma_heeds(launch_rule(host, config, job), launch_first(host), replies);
}

/// How waiting for the server goes on.
pub open spec fn api_rule() -> spec_fn(ApiPhase, ReplyView) -> StepView<ApiPhase, ()> {
    |s: ApiPhase, r: ReplyView| api_step(s, r)
}

/// The request for the language of the application.
pub open spec fn language_question() -> EffectView {
    EffectView::Request(
        ProbeView {
            port: 14300,
            connect_millis: 300,
            read_millis: 1000,
            request:
                "GET /api/app:getLang HTTP/1.1\r\nHost: 127.0.0.1\r\nConnection: close\r\n\r\n"@,
        },
    )
}

/// The talk in which each of `responses` is followed by a pause of a second.
pub open spec fn tries(responses: Seq<Result<Text, Text>>, idle: ReplyView) -> Talk {
    Seq::new(
        2 * responses.len(),
        |i: int|
            if i % 2 == 0 {
                (language_question(), ReplyView::Text(responses[i / 2]))
            } else {
                (EffectView::Sleep(1000), idle)
            },
    )
}

/// None of the responses is that of a ready server.
pub open spec fn none_ready(responses: Seq<Result<Text, Text>>) -> bool {
    forall|i: int|
        0 <= i < responses.len() ==> (#[trigger] responses[i] matches Ok(t) ==> !is_ready_response(
            t,
        ))
}

proof fn lemma_tries(responses: Seq<Result<Text, Text>>, idle: ReplyView)
    requires
        none_ready(responses),
        responses.len() <= 300,
    ensures
        leads(
            api_rule(),
            ask(0),
            tries(responses, idle),
            if responses.len() < 300 {
                ask(responses.len() as u32)
            } else {
                StepView::Finished(
                    Err("NocoBase 在 5 分钟内未完成数据源加载，请查看运行日志"@),
                )
            },
        ),
    decreases responses.len(),
{
    if responses.len() > 0 {
        let before = responses.drop_last();
        let n = before.len();
        assert(none_ready(before)) by {
            assert forall|i: int| 0 <= i < before.len() implies (#[trigger] before[i] matches Ok(t)
                ==> !is_ready_response(t)) by {
                assert(before[i] == responses[i]);
            }
        }
        lemma_tries(before, idle);
        let more = seq![
            (language_question(), ReplyView::Text(responses.last())),
            (EffectView::Sleep(1000), idle),
        ];
        assert(tries(responses, idle) =~= tries(before, idle) + more);
        let end: StepView<ApiPhase, ()> = if responses.len() < 300 {
            ask(responses.len() as u32)
        } else {
            StepView::Finished(
                Err("NocoBase 在 5 分钟内未完成数据源加载，请查看运行日志"@),
            )
        };
        assert(leads(api_rule(), ask(n as u32), more, end)) by {
            reveal_with_fuel(leads, 3);
            assert(responses[n as int] == responses.last());
        }
        lemma_joined(
            api_rule(),
            ask(0),
            tries(before, idle),
            ask(n as u32),
            more,
            end,
        );
    }
}

/// Waiting asks the server every second, three hundred times at most. It succeeds with the first
/// response of a ready server, whatever came before, and fails when all three hundred have gone
/// by without one.
pub proof fn law_waiting(responses: Seq<Result<Text, Text>>, t: Text, idle: ReplyView)
    requires
        none_ready(responses),
    ensures
        responses.len() < 300 && is_ready_response(t) ==> ends(
            api_rule(),
            ask(0),
            tries(responses, idle) + seq![(language_question(), ReplyView::Text(Ok(t)))],
            Ok(()),
        ),
        responses.len() == 300 ==> ends(
            api_rule(),
            ask(0),
            tries(responses, idle),
            Err("NocoBase 在 5 分钟内未完成数据源加载，请查看运行日志"@),
        ),
{
    if responses.len() <= 300 {
        lemma_tries(responses, idle);
        if responses.len() < 300 && is_ready_response(t) {
            let more = seq![(language_question(), ReplyView::Text(Ok(t)))];
            let n = responses.len() as u32;
            let end = StepView::<ApiPhase, ()>::Finished(Ok(()));
            assert(leads(api_rule(), ask(n), more, end)) by {
                reveal_with_fuel(leads, 2);
            }
            lemma_joined(api_rule(), ask(0), tries(responses, idle), ask(n), more, end);
        }
    }
}

/// How telling the status goes on.
pub open spec fn status_rule(host: HostView) -> spec_fn(StatusPhase, ReplyView) -> StepView<
    StatusPhase,
    StatusView,
> {
    |s: StatusPhase, r: ReplyView| status_step(host, s, r)
}

/// The talk about the child and the port. A child that does not run is forgotten.
pub open spec fn child_talk(child: ChildState, reachable: bool, idle: ReplyView) -> Talk {
    if child == ChildState::Running {
        seq![
            (EffectView::LockChild, done()),
            (EffectView::PollChild, ReplyView::Child(Ok(child))),
            (EffectView::Connect(14300, 200), ReplyView::Answer(reachable)),
        ]
    } else {
        seq![
            (EffectView::LockChild, done()),
            (EffectView::PollChild, ReplyView::Child(Ok(child))),
            (EffectView::ForgetChild, idle),
            (EffectView::Connect(14300, 200), ReplyView::Answer(reachable)),
        ]
    }
}

/// The status is told, whatever the child, the port and the mark of the runtime are like, as long
/// as the home directory is known: the server runs where the child does or the port answers, the
/// runtime is ready where its mark is there, and address and log are named.
pub proof fn law_telling_the_status(
    host: HostView,
    child: ChildState,
    reachable: bool,
    ready: bool,
    log: Text,
    idle: ReplyView,
)
    ensures
        host.home_found ==> ends(
            status_rule(host),
            status_first(),
            child_talk(child, reachable, idle) + seq![
                (EffectView::Exists(ready_marker()), ReplyView::Answer(ready)),
                (EffectView::Display(log_file()), ReplyView::Text(Ok(log))),
            ],
            Ok(
                StatusView {
                    running: child == ChildState::Running || reachable,
                    url: "http://127.0.0.1:14300"@,
                    runtime_ready: ready,
                    log_path: log,
                },
            ),
        ),
        !host.home_found ==> ends(
            status_rule(host),
            status_first(),
            child_talk(child, reachable, idle),
            Err("无法确定 HOME 目录"@),
        ),
{
    law_one_port();
    reveal_with_fuel(leads, 7);
}

/// Telling the status ends with every failure that it is told.
pub proof fn law_telling_the_status_heeds_failures(host: HostView, replies: Seq<ReplyView>)
    ensures
        heeds(status_rule(host), run(status_rule(host), status_first(), replies)),
{
    lemma_heeds(status_rule(host), status_first(), replies);
}

/// How installing the launcher goes on.
pub open spec fn install_rule(host: HostView) -> spec_fn(InstallView, ReplyView) -> StepView<
    InstallView,
    PathView,
> {
    |s: InstallView, r: ReplyView| install_step(host, s, r)
}

/// The talk of installing the launcher, where the paths of the runtime and of Node.js read as
/// given.
pub open spec fn install_talk(
    host: HostView,
    nested: bool,
    shown_runtime: Text,
    shown_node: Text,
) -> Talk {
    seq![
        (EffectView::Exists(resource("node"@, true)), ReplyView::Answer(nested)),
        (EffectView::CreateDirs(bin_dir()), done()),
        (EffectView::Display(runtime()), ReplyView::Text(Ok(shown_runtime))),
        (EffectView::Display(resource("node"@, nested)), ReplyView::Text(Ok(shown_node))),
        (
            EffectView::WriteText(
                launcher_file(),
                ("#!/bin/sh\ncd '"@ + shown_runtime + "'\n"@) + ("exec '"@ + shown_node
                    + "' 'node_modules/@nocobase/cli/bin/run.js' \"$@\"\n"@),
            ),
            done(),
        ),
    ] + if host.unix {
        seq![(EffectView::SetMode(launcher_file(), 0o755), done())]
    } else {
        Seq::empty()
    }
}

/// Installing the launcher finds Node.js, makes sure of the directory, writes the script for the
/// paths as they read, and makes it a program where files have modes.
pub proof fn law_installing(
    host: HostView,
    nested: bool,
    shown_runtime: Text,
    shown_node: Text,
)
    ensures
        host.resources matches Err(m) ==> install_first(host) == StepView::<
            InstallView,
            PathView,
        >::Finished(Err(m)),
        host.resources is Ok && !host.home_found ==> ends(
            install_rule(host),
            install_first(host),
            seq![(EffectView::Exists(resource("node"@, true)), ReplyView::Answer(nested))],
            Err("无法确定 HOME 目录"@),
        ),
        host.resources is Ok && host.home_found ==> ends(
            install_rule(host),
            install_first(host),
            install_talk(host, nested, shown_runtime, shown_node),
            Ok(launcher_file()),
        ),
{
    law_launcher_script_is_whole(shown_runtime, shown_node);
    reveal_with_fuel(leads, 7);
}

/// Installing the launcher ends with every failure that it is told.
pub proof fn law_installing_heeds_failures(host: HostView, replies: Seq<ReplyView>)
    ensures
        heeds(install_rule(host), run(install_rule(host), install_first(host), replies)),
{
    lemma_heeds(install_rule(host), install_first(host), replies);
}

/// How opening the window goes on.
pub open spec fn window_rule() -> spec_fn(WindowPhase, ReplyView) -> StepView<WindowPhase, ()> {
    |s: WindowPhase, r: ReplyView| window_step(s, r)
}

/// A window that is open goes to the address of the server and comes to the front; otherwise one
/// is opened there.
pub proof fn law_opening_the_window(end: Result<(), Text>)
    ensures
        ends(
            window_rule(),
            window_first(),
            seq![
                (EffectView::FindWindow("nocobase"@), ReplyView::Answer(true)),
                (EffectView::Navigate("nocobase"@, "http://127.0.0.1:14300"@), done()),
                (EffectView::FocusWindow("nocobase"@), ReplyView::Done(end)),
            ],
            end,
        ),
        ends(
            window_rule(),
            window_first(),
            seq![
                (EffectView::FindWindow("nocobase"@), ReplyView::Answer(false)),
                (
                    EffectView::OpenWindow(
                        WindowView {
                            label: "nocobase"@,
                            title: "NocoBase"@,
                            url: "http://127.0.0.1:14300"@,
                            width: 1280,
                            height: 840,
                            page_script: ADDRESS_BAR_SCRIPT@,
                        },
                    ),
                    ReplyView::Done(end),
                ),
            ],
            end,
        ),
{
    law_one_port();
    reveal_with_fuel(leads, 4);
}

/// Opening the window ends with every failure that it is told.
pub proof fn law_opening_heeds_failures(replies: Seq<ReplyView>)
    ensures
        heeds(window_rule(), run(window_rule(), window_first(), replies)),
{
    lemma_heeds(window_rule(), window_first(), replies);
}

/// What the disk answers while the runtime is replaced.
pub struct Found {
    /// The two marks of the old runtime.
    pub initialized: bool,
    pub nb_initialized: bool,
    /// The user's files, and the old runtime itself.
    pub storage: bool,
    pub runtime: bool,
    /// The archive in its nested place.
    pub nested: bool,
    /// The backup, and what the archive has unpacked in its place.
    pub backup: bool,
    pub unpacked: bool,
}

/// The talk until the old runtime is gone and the directory of the new one is there.
pub open spec fn clearing_talk(id: Text, seen: Result<Text, Text>, found: Found) -> Talk {
    seq![
        (EffectView::ReadText(ready_marker()), ReplyView::Text(seen)),
        (EffectView::Exists(initialized_marker()), ReplyView::Answer(found.initialized)),
        (EffectView::Exists(nb_marker()), ReplyView::Answer(found.nb_initialized)),
        (EffectView::Exists(storage()), ReplyView::Answer(found.storage)),
    ] + (if found.storage {
        seq![(EffectView::Rename(storage(), storage_backup(id)), done())]
    } else {
        Seq::empty()
    }) + (if found.runtime {
        seq![
            (EffectView::Exists(runtime()), ReplyView::Answer(true)),
            (EffectView::RemoveTree(runtime()), done()),
            (EffectView::CreateDirs(runtime()), done()),
        ]
    } else {
        seq![
            (EffectView::Exists(runtime()), ReplyView::Answer(false)),
            (EffectView::CreateDirs(runtime()), done()),
        ]
    })
}

/// The talk of unpacking, bringing the user's files back and leaving the marks.
pub open spec fn filling_talk(id: Text, version: Text, found: Found) -> Talk {
    seq![
        (
            EffectView::Exists(resource("runtime.tar.gz"@, true)),
            ReplyView::Answer(found.nested),
        ),
        (EffectView::Unpack(resource("runtime.tar.gz"@, found.nested), runtime()), done()),
        (EffectView::Exists(storage_backup(id)), ReplyView::Answer(found.backup)),
    ] + (if !found.backup {
        Seq::empty()
    } else if found.unpacked {
        seq![
            (EffectView::Exists(storage()), ReplyView::Answer(true)),
            (EffectView::RemoveTree(storage()), done()),
            (EffectView::Rename(storage_backup(id), storage()), done()),
        ]
    } else {
        seq![
            (EffectView::Exists(storage()), ReplyView::Answer(false)),
            (EffectView::Rename(storage_backup(id), storage()), done()),
        ]
    }) + (if found.initialized {
        seq![(EffectView::WriteText(initialized_marker(), "ok"@), done())]
    } else {
        Seq::empty()
    }) + (if found.nb_initialized {
        seq![(EffectView::WriteText(nb_marker(), "ok"@), done())]
    } else {
        Seq::empty()
    }) + seq![(EffectView::WriteText(ready_marker(), version), done())]
}

/// The step from which the new runtime is filled.
spec fn filling(host: HostView, kept: Kept) -> StepView<EnsurePhase, PathView> {
    match host.resources {
        Ok(_) => StepView::Perform(
            EnsurePhase::FindArchive(kept),
            EffectView::Exists(resource("runtime.tar.gz"@, true)),
        ),
        Err(m) => StepView::Finished(Err(m)),
    }
}

proof fn lemma_clearing(host: HostView, id: Text, seen: Result<Text, Text>, found: Found)
    requires
        host.home_found,
        seen matches Ok(t) ==> trimmed(t) != host.version,
    ensures
        leads(
            ensure_rule(host, id),
            ensure_first(host),
            clearing_talk(id, seen, found),
            filling(
                host,
                Kept { initialized: found.initialized, nb_initialized: found.nb_initialized },
            ),
        ),
{
    let rule = ensure_rule(host, id);
    let first = ensure_first(host);
    let kept = Kept { initialized: found.initialized, nb_initialized: found.nb_initialized };
    let one = seq![
        (EffectView::ReadText(ready_marker()), ReplyView::Text(seen)),
        (EffectView::Exists(initialized_marker()), ReplyView::Answer(found.initialized)),
        (EffectView::Exists(nb_marker()), ReplyView::Answer(found.nb_initialized)),
        (EffectView::Exists(storage()), ReplyView::Answer(found.storage)),
    ];
    let two: Talk = if found.storage {
        seq![(EffectView::Rename(storage(), storage_backup(id)), done())]
    } else {
        Seq::empty()
    };
    let three: Talk = if found.runtime {
        seq![
            (EffectView::Exists(runtime()), ReplyView::Answer(true)),
            (EffectView::RemoveTree(runtime()), done()),
            (EffectView::CreateDirs(runtime()), done()),
        ]
    } else {
        seq![
            (EffectView::Exists(runtime()), ReplyView::Answer(false)),
            (EffectView::CreateDirs(runtime()), done()),
        ]
    };
    let a = ensure_step(
        host,
        id,
        EnsurePhase::ProbeStorage(kept),
        ReplyView::Answer(found.storage),
    );
    reveal_with_fuel(leads, 5);
    assert(leads(rule, first, one, a));
    assert(leads(rule, a, two, probe_runtime(kept)));
    assert(leads(rule, probe_runtime(kept), three, filling(host, kept)));
    lemma_joined(rule, first, one, a, two, probe_runtime(kept));
    lemma_joined(rule, first, one + two, probe_runtime(kept), three, filling(host, kept));
}

proof fn lemma_filling(host: HostView, id: Text, found: Found)
    requires
        host.resources is Ok,
    ensures
        ends(
            ensure_rule(host, id),
            filling(
                host,
                Kept { initialized: found.initialized, nb_initialized: found.nb_initialized },
            ),
            filling_talk(id, host.version, found),
            Ok(runtime()),
        ),
{
    let rule = ensure_rule(host, id);
    let kept = Kept { initialized: found.initialized, nb_initialized: found.nb_initialized };
    let first = filling(host, kept);
    let one = seq![
        (
            EffectView::Exists(resource("runtime.tar.gz"@, true)),
            ReplyView::Answer(found.nested),
        ),
        (EffectView::Unpack(resource("runtime.tar.gz"@, found.nested), runtime()), done()),
        (EffectView::Exists(storage_backup(id)), ReplyView::Answer(found.backup)),
    ];
    let two: Talk = if !found.backup {
        Seq::empty()
    } else if found.unpacked {
        seq![
            (EffectView::Exists(storage()), ReplyView::Answer(true)),
            (EffectView::RemoveTree(storage()), done()),
            (EffectView::Rename(storage_backup(id), storage()), done()),
        ]
    } else {
        seq![
            (EffectView::Exists(storage()), ReplyView::Answer(false)),
            (EffectView::Rename(storage_backup(id), storage()), done()),
        ]
    };
    let three: Talk = if found.initialized {
        seq![(EffectView::WriteText(initialized_marker(), "ok"@), done())]
    } else {
        Seq::empty()
    };
    let four: Talk = if found.nb_initialized {
        seq![(EffectView::WriteText(nb_marker(), "ok"@), done())]
    } else {
        Seq::empty()
    };
    let five = seq![(EffectView::WriteText(ready_marker(), host.version), done())];
    let a = ensure_step(
        host,
        id,
        EnsurePhase::ProbeBackup(kept),
        ReplyView::Answer(found.backup),
    );
    let b = leave_marks(host, kept);
    let c = leave_nb_mark(host, kept);
    let d = leave_ready_mark(host, kept);
    let end = StepView::<EnsurePhase, PathView>::Finished(Ok(runtime()));
    reveal_with_fuel(leads, 4);
    assert(leads(rule, first, one, a));
    assert(leads(rule, a, two, b));
    assert(leads(rule, b, three, c));
    assert(leads(rule, c, four, d));
    assert(leads(rule, d, five, end));
    lemma_joined(rule, first, one, a, two, b);
    lemma_joined(rule, first, one + two, b, three, c);
    lemma_joined(rule, first, one + two + three, c, four, d);
    lemma_joined(rule, first, one + two + three + four, d, five, end);
}

/// A runtime whose mark is that of this version is left alone. Any other is replaced: the user's
/// files are set aside where there are any, the old runtime is removed where there is one, the
/// archive is unpacked from where it lies, the files are brought back in place of what was
/// unpacked, the marks of the old runtime are left again, and the mark of the version comes last.
pub proof fn law_replacing(host: HostView, id: Text, seen: Result<Text, Text>, found: Found)
    ensures
        !host.home_found ==> ensure_first(host) == StepView::<EnsurePhase, PathView>::Finished(
            Err("无法确定 HOME 目录"@),
        ),
        host.home_found && (seen matches Ok(t) && trimmed(t) == host.version) ==> ends(
            ensure_rule(host, id),
            ensure_first(host),
            seq![(EffectView::ReadText(ready_marker()), ReplyView::Text(seen))],
            Ok(runtime()),
        ),
        host.home_found && !(seen matches Ok(t) && trimmed(t) == host.version) ==> {
            match host.resources {
                Ok(_) => ends(
                    ensure_rule(host, id),
                    ensure_first(host),
                    clearing_talk(id, seen, found) + filling_talk(id, host.version, found),
                    Ok(runtime()),
                ),
                Err(m) => ends(
                    ensure_rule(host, id),
                    ensure_first(host),
                    clearing_talk(id, seen, found),
                    Err(m),
                ),
            }
        },
{
    reveal_with_fuel(leads, 2);
    if host.home_found && !(seen matches Ok(t) && trimmed(t) == host.version) {
        lemma_clearing(host, id, seen, found);
        if host.resources is Ok {
            lemma_filling(host, id, found);
            lemma_joined(
                ensure_rule(host, id),
                ensure_first(host),
                clearing_talk(id, seen, found),
                filling(
                    host,
                    Kept { initialized: found.initialized, nb_initialized: found.nb_initialized },
                ),
                filling_talk(id, host.version, found),
                StepView::Finished(Ok(runtime())),
            );
        }
    }
}

/// Replacing the runtime ends with every failure that it is told.
pub proof fn law_replacing_heeds_failures(host: HostView, id: Text, replies: Seq<ReplyView>)
    ensures
        heeds(ensure_rule(host, id), run(ensure_rule(host, id), ensure_first(host), replies)),
{
    lemma_heeds(ensure_rule(host, id), ensure_first(host), replies);
}

/// How ending the child goes on.
pub open spec fn end_rule() -> spec_fn(EndPhase, ReplyView) -> StepView<EndPhase, ()> {
    |s: EndPhase, r: ReplyView| end_step(s, r)
}

/// The talk in which `n` looks find the child running, each followed by a pause of a tenth of a
/// second.
pub open spec fn looks(n: nat, idle: ReplyView) -> Talk {
    Seq::new(
        2 * n,
        |i: int|
            if i % 2 == 0 {
                (EffectView::PollTaken, ReplyView::Child(Ok(ChildState::Running)))
            } else {
                (EffectView::Sleep(100), idle)
            },
    )
}

proof fn lemma_looks(n: nat, idle: ReplyView)
    requires
        n <= 80,
    ensures
        leads(
            end_rule(),
            poll(0),
            looks(n, idle),
            if n < 80 {
                poll(n as u32)
            } else {
                StepView::Perform(
                    EndPhase::KillGroup,
                    EffectView::SendSignal(Target::Group, Signal::Kill),
                )
            },
        ),
    decreases n,
{
    if n > 0 {
        let m = (n - 1) as nat;
        lemma_looks(m, idle);
        let more = seq![
            (EffectView::PollTaken, ReplyView::Child(Ok(ChildState::Running))),
            (EffectView::Sleep(100), idle),
        ];
        assert(looks(n, idle) =~= looks(m, idle) + more);
        let end: StepView<EndPhase, ()> = if n < 80 {
            poll(n as u32)
        } else {
            StepView::Perform(
                EndPhase::KillGroup,
                EffectView::SendSignal(Target::Group, Signal::Kill),
            )
        };
        assert(leads(end_rule(), poll(m as u32), more, end)) by {
            reveal_with_fuel(leads, 3);
        }
        lemma_joined(end_rule(), poll(0), looks(m, idle), poll(m as u32), more, end);
    }
}

/// Where there are signals, the child is asked to end and looked at every tenth of a second. When
/// it is found ended, its group is asked to end; when eighty looks have found it running, its
/// group is killed and its end is waited for. Where there are none, the child is killed at once
/// and its end is waited for.
pub proof fn law_ending_the_child(
    host: HostView,
    n: nat,
    state: ChildState,
    end: Result<(), Text>,
    idle: ReplyView,
)
    ensures
        host.unix && n < 80 && state != ChildState::Running ==> ends(
            end_rule(),
            end_first(host),
            seq![(EffectView::SendSignal(Target::Child, Signal::Terminate), idle)] + looks(n, idle)
                + seq![
                (EffectView::PollTaken, ReplyView::Child(Ok(state))),
                (EffectView::SendSignal(Target::Group, Signal::Terminate), idle),
            ],
            Ok(()),
        ),
        host.unix ==> ends(
            end_rule(),
            end_first(host),
            seq![(EffectView::SendSignal(Target::Child, Signal::Terminate), idle)] + looks(
                80,
                idle,
            ) + seq![
                (EffectView::SendSignal(Target::Group, Signal::Kill), idle),
                (EffectView::WaitTaken, ReplyView::Done(end)),
            ],
            end,
        ),
        !host.unix ==> ends(
            end_rule(),
            end_first(host),
            seq![
                (EffectView::KillTaken, done()),
                (EffectView::WaitTaken, ReplyView::Done(end)),
            ],
            end,
        ),
{
    let rule = end_rule();
    let first = end_first(host);
    reveal_with_fuel(leads, 3);
    if host.unix {
        let one = seq![(EffectView::SendSignal(Target::Child, Signal::Terminate), idle)];
        assert(leads(rule, first, one, poll(0)));
        if n < 80 && state != ChildState::Running {
            let more = seq![
                (EffectView::PollTaken, ReplyView::Child(Ok(state))),
                (EffectView::SendSignal(Target::Group, Signal::Terminate), idle),
            ];
            let last = StepView::<EndPhase, ()>::Finished(Ok(()));
            lemma_looks(n, idle);
            lemma_joined(rule, first, one, poll(0), looks(n, idle), poll(n as u32));
            assert(leads(rule, poll(n as u32), more, last));
            lemma_joined(rule, first, one + looks(n, idle), poll(n as u32), more, last);
        }
        let kill = StepView::<EndPhase, ()>::Perform(
            EndPhase::KillGroup,
            EffectView::SendSignal(Target::Group, Signal::Kill),
        );
        let more = seq![
            (EffectView::SendSignal(Target::Group, Signal::Kill), idle),
            (EffectView::WaitTaken, ReplyView::Done(end)),
        ];
        let last = StepView::<EndPhase, ()>::Finished(end);
        lemma_looks(80, idle);
        lemma_joined(rule, first, one, poll(0), looks(80, idle), kill);
        assert(leads(rule, kill, more, last));
        lemma_joined(rule, first, one + looks(80, idle), kill, more, last);
    }
}

/// Ending the child ends with every failure that it is told.
pub proof fn law_ending_heeds_failures(host: HostView, replies: Seq<ReplyView>)
    ensures
        heeds(end_rule(), run(end_rule(), end_first(host), replies)),
{
    lemma_heeds(end_rule(), end_first(host), replies);
}

/// How stopping the server goes on.
pub open spec fn stop_rule(host: HostView) -> spec_fn(StopPhase, ReplyView) -> StepView<
    StopPhase,
    (),
> {
    |s: StopPhase, r: ReplyView| stop_step(host, s, r)
}

/// Stopping takes the child under the lock. Where there is none it is done; otherwise the child is
/// ended, step by step as ending it goes, and stopping ends as that does.
pub proof fn law_stopping(host: HostView, talk: Talk, end: Result<(), Text>)
    ensures
        ends(
            stop_rule(host),
            stop_first(),
            seq![
                (EffectView::LockChild, done()),
                (EffectView::TakeChild, ReplyView::Answer(false)),
            ],
            Ok(()),
        ),
        ends(end_rule(), end_first(host), talk, end) ==> ends(
            stop_rule(host),
            stop_first(),
            seq![
                (EffectView::LockChild, done()),
                (EffectView::TakeChild, ReplyView::Answer(true)),
            ] + talk,
            end,
        ),
{
    reveal_with_fuel(leads, 3);
    if ends(end_rule(), end_first(host), talk, end) {
        let wrap = |x: StepView<EndPhase, ()>| stop_end(x);
        let lift = |p: EndPhase| StopPhase::End(p);
        let last = StepView::<EndPhase, ()>::Finished(end);
        lemma_within(end_rule(), stop_rule(host), lift, wrap, end_first(host), talk, last);
        let one = seq![
            (EffectView::LockChild, done()),
            (EffectView::TakeChild, ReplyView::Answer(true)),
        ];
        assert(leads(stop_rule(host), stop_first(), one, stop_end(end_first(host))));
        lemma_joined(
            stop_rule(host),
            stop_first(),
            one,
            stop_end(end_first(host)),
            talk,
            StepView::Finished(end),
        );
    }
}

/// Stopping ends with every failure that it is told.
pub proof fn law_stopping_heeds_failures(host: HostView, replies: Seq<ReplyView>)
    ensures
        heeds(stop_rule(host), run(stop_rule(host), stop_first(), replies)),
{
    lemma_heeds(stop_rule(host), stop_first(), replies);
}

/// How closing the application goes on.
pub open spec fn close_rule(host: HostView) -> spec_fn(ClosePhase, ReplyView) -> StepView<
    ClosePhase,
    (),
> {
    |s: ClosePhase, r: ReplyView| close_step(host, s, r)
}

/// When the main window is destroyed, stopping the server runs to its end, however it ends; then,
/// and only then, the lock is given back and the application exits with the code 0. Nothing else
/// that happens to a window does anything.
pub proof fn law_closing(
    host: HostView,
    label: Text,
    destroyed: bool,
    talk: Talk,
    end: Result<(), Text>,
    idle: ReplyView,
)
    ensures
        label != "main"@ || !destroyed ==> close_first(label, destroyed) == StepView::<
            ClosePhase,
            (),
        >::Finished(Ok(())),
        ends(stop_rule(host), stop_first(), talk, end) ==> ends(
            close_rule(host),
            close_first("main"@, true),
            talk + seq![(EffectView::UnlockChild, idle), (EffectView::Exit(0), idle)],
            Ok(()),
        ),
{
    if ends(stop_rule(host), stop_first(), talk, end) {
        let wrap = |x: StepView<StopPhase, ()>| close_stop(x);
        let lift = |p: StopPhase| ClosePhase::Stop(p);
        let last = StepView::<StopPhase, ()>::Finished(end);
        lemma_within(stop_rule(host), close_rule(host), lift, wrap, stop_first(), talk, last);
        let more = seq![(EffectView::UnlockChild, idle), (EffectView::Exit(0), idle)];
        let over = StepView::<ClosePhase, ()>::Finished(Ok(()));
        assert(leads(close_rule(host), close_stop(last), more, over)) by {
            reveal_with_fuel(leads, 3);
        }
        lemma_joined(
            close_rule(host),
            close_first("main"@, true),
            talk,
            close_stop(last),
            more,
            over,
        );
    }
}

/// How registering goes on.
pub open spec fn register_rule(host: HostView, config: ConfigView) -> spec_fn(
    RegisterView,
    ReplyView,
) -> StepView<RegisterView, ()> {
    |s: RegisterView, r: ReplyView| register_step(host, config, s, r)
}

proof fn lemma_register_install(
    host: HostView,
    config: ConfigView,
    talk: Talk,
    end: Result<PathView, Text>,
)
    requires
        ends(install_rule(host), install_first(host), talk, end),
    ensures
        leads(
            register_rule(host, config),
            register_first(),
            seq![(EffectView::Exists(nb_marker()), ReplyView::Answer(false))] + talk,
            register_install(host, StepView::Finished(end)),
        ),
{
    let rule = register_rule(host, config);
    let wrap = |x: StepView<InstallView, PathView>| register_install(host, x);
    let lift = |p: InstallView| RegisterView::Install(p);
    let last = StepView::<InstallView, PathView>::Finished(end);
    lemma_within(install_rule(host), rule, lift, wrap, install_first(host), talk, last);
    lemma_first(
        rule,
        RegisterView::Probe,
        EffectView::Exists(nb_marker()),
        ReplyView::Answer(false),
        talk,
        register_install(host, last),
    );
}

proof fn lemma_register_launch(
    host: HostView,
    config: ConfigView,
    talk: Talk,
    end: Result<(), Text>,
)
    requires
        ends(launch_rule(host, config, Job::Register), launch_first(host), talk, end),
    ensures
        leads(
            register_rule(host, config),
            register_launch(launch_first(host)),
            talk,
            register_launch(StepView::Finished(end)),
        ),
{
    let wrap = |x: StepView<LaunchView, ()>| register_launch(x);
    let lift = |p: LaunchView| RegisterView::Launch(p);
    lemma_within(
        launch_rule(host, config, Job::Register),
        register_rule(host, config),
        lift,
        wrap,
        launch_first(host),
        talk,
        StepView::Finished(end),
    );
}

/// A server that is marked as registered is left alone. Otherwise the launcher is installed, step
/// by step as installing goes, then the registering command is run, step by step as a job goes,
/// and then the mark is written. What fails on the way ends registering with its message.
pub proof fn law_registering(
    host: HostView,
    config: ConfigView,
    install: Talk,
    installed: Result<PathView, Text>,
    launch: Talk,
    launched: Result<(), Text>,
    end: Result<(), Text>,
)
    requires
        ends(install_rule(host), install_first(host), install, installed),
        ends(launch_rule(host, config, Job::Register), launch_first(host), launch, launched),
    ensures
        ends(
            register_rule(host, config),
            register_first(),
            seq![(EffectView::Exists(nb_marker()), ReplyView::Answer(true))],
            Ok(()),
        ),
        installed matches Err(m) ==> ends(
            register_rule(host, config),
            register_first(),
            seq![(EffectView::Exists(nb_marker()), ReplyView::Answer(false))] + install,
            Err(m),
        ),
        installed is Ok && launched is Err ==> ends(
            register_rule(host, config),
            register_first(),
            seq![(EffectView::Exists(nb_marker()), ReplyView::Answer(false))] + install + launch,
            launched,
        ),
        installed is Ok && launched is Ok ==> ends(
            register_rule(host, config),
            register_first(),
            seq![(EffectView::Exists(nb_marker()), ReplyView::Answer(false))] + install + launch
                + seq![(EffectView::WriteText(nb_marker(), "ok"@), ReplyView::Done(end))],
            end,
        ),
{
    let rule = register_rule(host, config);
    let one = seq![(EffectView::Exists(nb_marker()), ReplyView::Answer(false))] + install;
    reveal_with_fuel(leads, 2);
    lemma_register_install(host, config, install, installed);
    lemma_register_launch(host, config, launch, launched);
    if installed is Ok {
        let a = register_launch(launch_first(host));
        let b = register_launch(StepView::Finished(launched));
        lemma_joined(rule, register_first(), one, a, launch, b);
        if launched is Ok {
            let more = seq![(EffectView::WriteText(nb_marker(), "ok"@), ReplyView::Done(end))];
            let last = StepView::<RegisterView, ()>::Finished(end);
            assert(leads(rule, b, more, last));
            lemma_joined(rule, register_first(), one + launch, b, more, last);
        }
    }
}

/// Registering ends with every failure that it is told.
pub proof fn law_registering_heeds_failures(
    host: HostView,
    config: ConfigView,
    replies: Seq<ReplyView>,
)
    ensures
        heeds(
            register_rule(host, config),
            run(register_rule(host, config), register_first(), replies),
        ),
{
    lemma_heeds(register_rule(host, config), register_first(), replies);
}

/// How installing the `nb` command goes on.
pub open spec fn cli_rule(host: HostView, id: Text) -> spec_fn(CliView, ReplyView) -> StepView<
    CliView,
    Text,
> {
    |s: CliView, r: ReplyView| cli_step(host, id, s, r)
}

/// The `nb` command is installed by making sure of the runtime, step by step as that goes, then
/// installing the launcher, step by step as that goes, and then telling how the path of the
/// launcher reads. What fails on the way ends it with its message.
pub proof fn law_installing_the_command(
    host: HostView,
    id: Text,
    ensure: Talk,
    ensured: Result<PathView, Text>,
    install: Talk,
    installed: Result<PathView, Text>,
    shown: Result<Text, Text>,
)
    requires
        ends(ensure_rule(host, id), ensure_first(host), ensure, ensured),
        ends(install_rule(host), install_first(host), install, installed),
    ensures
        ensured matches Err(m) ==> ends(cli_rule(host, id), cli_first(host), ensure, Err(m)),
        ensured is Ok ==> (installed matches Err(m) ==> ends(
            cli_rule(host, id),
            cli_first(host),
            ensure + install,
            Err(m),
        )),
        ensured is Ok ==> (installed matches Ok(p) ==> ends(
            cli_rule(host, id),
            cli_first(host),
            ensure + install + seq![(EffectView::Display(p), ReplyView::Text(shown))],
            shown,
        )),
{
    let rule = cli_rule(host, id);
    let wrap = |x: StepView<EnsurePhase, PathView>| cli_ensure(host, x);
    let lift = |p: EnsurePhase| CliView::Ensure(p);
    let last = StepView::<EnsurePhase, PathView>::Finished(ensured);
    lemma_within(ensure_rule(host, id), rule, lift, wrap, ensure_first(host), ensure, last);
    let wrap2 = |x: StepView<InstallView, PathView>| cli_install(x);
    let lift2 = |p: InstallView| CliView::Install(p);
    let last2 = StepView::<InstallView, PathView>::Finished(installed);
    lemma_within(install_rule(host), rule, lift2, wrap2, install_first(host), install, last2);
    if ensured is Ok {
        let a = cli_install(install_first(host));
        let b = cli_install(last2);
        lemma_joined(rule, cli_first(host), ensure, a, install, b);
        if let Ok(p) = installed {
            let more = seq![(EffectView::Display(p), ReplyView::Text(shown))];
            let over = StepView::<CliView, Text>::Finished(shown);
            assert(leads(rule, b, more, over)) by {
                reveal_with_fuel(leads, 2);
            }
            lemma_joined(rule, cli_first(host), ensure + install, b, more, over);
        }
    }
}

/// Installing the `nb` command ends with every failure that it is told.
#[verifier::rlimit(60)]
pub proof fn law_installing_the_command_heeds_failures(
    host: HostView,
    id: Text,
    replies: Seq<ReplyView>,
)
    ensures
        heeds(cli_rule(host, id), run(cli_rule(host, id), cli_first(host), replies)),
{
    lemma_heeds(cli_rule(host, id), cli_first(host), replies);
}

/// How starting goes on.
pub open spec fn start_rule(host: HostView, config: ConfigView, id: Text) -> spec_fn(
    StartView,
    ReplyView,
) -> StepView<StartView, ()> {
    |s: StartView, r: ReplyView| start_step(host, config, id, s, r)
}

/// The parts of a start, each with its own talk and how it ends.
pub struct Parts {
    pub save: Talk,
    pub saved: Result<(), Text>,
    pub ensure: Talk,
    pub ensured: Result<PathView, Text>,
    pub install: Talk,
    pub installed: Result<(), Text>,
    pub enable: Talk,
    pub enabled: Result<(), Text>,
    pub serve: Talk,
    pub served: Result<(), Text>,
    pub wait: Talk,
    pub waited: Result<(), Text>,
    pub register: Talk,
    pub registered: Result<(), Text>,
}

/// Each part talks as its procedure does by itself.
pub open spec fn are_parts(host: HostView, config: ConfigView, id: Text, p: Parts) -> bool {
    &&& ends(save_rule(host, config), save_first(host), p.save, p.saved)
    &&& ends(ensure_rule(host, id), ensure_first(host), p.ensure, p.ensured)
    &&& ends(launch_rule(host, config, Job::Install), launch_first(host), p.install, p.installed)
    &&& ends(launch_rule(host, config, Job::EnablePlugin), launch_first(host), p.enable, p.enabled)
    &&& ends(launch_rule(host, config, Job::Serve), launch_first(host), p.serve, p.served)
    &&& ends(api_rule(), ask(0), p.wait, p.waited)
    &&& ends(register_rule(host, config), register_first(), p.register, p.registered)
}

/// The talk of setting NocoBase up, where it is not marked as set up.
pub open spec fn setup_talk(marked: bool, p: Parts) -> Talk {
    if marked {
        seq![(EffectView::Exists(initialized_marker()), ReplyView::Answer(true))]
    } else {
        seq![(EffectView::Exists(initialized_marker()), ReplyView::Answer(false))] + p.install
            + p.enable + seq![(EffectView::WriteText(initialized_marker(), "ok"@), done())]
    }
}

/// The talk that asks, under the lock, how the child is.
pub open spec fn ask_child_talk(child: ChildState) -> Talk {
    seq![
        (EffectView::LockChild, done()),
        (EffectView::PollChild, ReplyView::Child(Ok(child))),
    ]
}

proof fn lemma_start_save(host: HostView, config: ConfigView, id: Text, p: Parts)
    requires
        are_parts(host, config, id, p),
    ensures
        leads(
            start_rule(host, config, id),
            start_first(host),
            p.save,
            start_save(host, StepView::Finished(p.saved)),
        ),
{
    let wrap = |x: StepView<SavePhase, ()>| start_save(host, x);
    let lift = |s: SavePhase| StartView::Save(s);
    lemma_within(
        save_rule(host, config),
        start_rule(host, config, id),
        lift,
        wrap,
        save_first(host),
        p.save,
        StepView::Finished(p.saved),
    );
}

proof fn lemma_start_ensure(host: HostView, config: ConfigView, id: Text, p: Parts)
    requires
        are_parts(host, config, id, p),
    ensures
        leads(
            start_rule(host, config, id),
            start_ensure(ensure_first(host)),
            p.ensure,
            start_ensure(StepView::Finished(p.ensured)),
        ),
{
    let wrap = |x: StepView<EnsurePhase, PathView>| start_ensure(x);
    let lift = |s: EnsurePhase| StartView::Ensure(s);
    lemma_within(
        ensure_rule(host, id),
        start_rule(host, config, id),
        lift,
        wrap,
        ensure_first(host),
        p.ensure,
        StepView::Finished(p.ensured),
    );
}

proof fn lemma_start_launches(host: HostView, config: ConfigView, id: Text, p: Parts)
    requires
        are_parts(host, config, id, p),
    ensures
        leads(
            start_rule(host, config, id),
            start_install(host, launch_first(host)),
            p.install,
            start_install(host, StepView::Finished(p.installed)),
        ),
        leads(
            start_rule(host, config, id),
            start_enable(launch_first(host)),
            p.enable,
            start_enable(StepView::Finished(p.enabled)),
        ),
        leads(
            start_rule(host, config, id),
            start_serve(launch_first(host)),
            p.serve,
            start_serve(StepView::Finished(p.served)),
        ),
{
    let rule = start_rule(host, config, id);
    lemma_within(
        launch_rule(host, config, Job::Install),
        rule,
        |s: LaunchView| StartView::Install(s),
        |x: StepView<LaunchView, ()>| start_install(host, x),
        launch_first(host),
        p.install,
        StepView::Finished(p.installed),
    );
    lemma_within(
        launch_rule(host, config, Job::EnablePlugin),
        rule,
        |s: LaunchView| StartView::Enable(s),
        |x: StepView<LaunchView, ()>| start_enable(x),
        launch_first(host),
        p.enable,
        StepView::Finished(p.enabled),
    );
    lemma_within(
        launch_rule(host, config, Job::Serve),
        rule,
        |s: LaunchView| StartView::Serve(s),
        |x: StepView<LaunchView, ()>| start_serve(x),
        launch_first(host),
        p.serve,
        StepView::Finished(p.served),
    );
}

proof fn lemma_start_last(host: HostView, config: ConfigView, id: Text, p: Parts)
    requires
        are_parts(host, config, id, p),
    ensures
        leads(
            start_rule(host, config, id),
            start_wait(ask(0)),
            p.wait,
            start_wait(StepView::Finished(p.waited)),
        ),
        leads(
            start_rule(host, config, id),
            start_register(register_first()),
            p.register,
            start_register(StepView::Finished(p.registered)),
        ),
{
    let rule = start_rule(host, config, id);
    lemma_within(
        api_rule(),
        rule,
        |s: ApiPhase| StartView::Wait(s),
        |x: StepView<ApiPhase, ()>| start_wait(x),
        ask(0),
        p.wait,
        StepView::Finished(p.waited),
    );
    lemma_within(
        register_rule(host, config),
        rule,
        |s: RegisterView| StartView::Register(s),
        |x: StepView<RegisterView, ()>| start_register(x),
        register_first(),
        p.register,
        StepView::Finished(p.registered),
    );
}

/// Starting first saves the configuration and then makes sure of the runtime, each step by step as
/// it goes by itself, and ends with the failure of either.
pub proof fn law_starting_prepares(host: HostView, config: ConfigView, id: Text, p: Parts)
    requires
        are_parts(host, config, id, p),
    ensures
        p.saved matches Err(m) ==> ends(
            start_rule(host, config, id),
            start_first(host),
            p.save,
            Err(m),
        ),
        p.saved is Ok ==> (p.ensured matches Err(m) ==> ends(
            start_rule(host, config, id),
            start_first(host),
            p.save + p.ensure,
            Err(m),
        )),
        p.saved is Ok && p.ensured is Ok ==> leads(
            start_rule(host, config, id),
            start_first(host),
            p.save + p.ensure,
            StepView::Perform(StartView::Probe, EffectView::Exists(initialized_marker())),
        ),
{
    let rule = start_rule(host, config, id);
    lemma_start_save(host, config, id, p);
    lemma_start_ensure(host, config, id, p);
    if p.saved is Ok {
        lemma_joined(
            rule,
            start_first(host),
            p.save,
            start_ensure(ensure_first(host)),
            p.ensure,
            start_ensure(StepView::Finished(p.ensured)),
        );
    }
}

/// Where NocoBase is marked as set up, nothing is set up. Otherwise the tables are created and the
/// plugin is enabled, each step by step as a job goes, and then the mark is written; starting ends
/// with the failure of either job.
pub proof fn law_starting_sets_up(
    host: HostView,
    config: ConfigView,
    id: Text,
    p: Parts,
    marked: bool,
)
    requires
        are_parts(host, config, id, p),
        p.saved is Ok,
        p.ensured is Ok,
    ensures
        p.installed matches Err(m) ==> ends(
            start_rule(host, config, id),
            start_first(host),
            p.save + p.ensure + (seq![
                (EffectView::Exists(initialized_marker()), ReplyView::Answer(false)),
            ] + p.install),
            Err(m),
        ),
        p.installed is Ok ==> (p.enabled matches Err(m) ==> ends(
            start_rule(host, config, id),
            start_first(host),
            p.save + p.ensure + (seq![
                (EffectView::Exists(initialized_marker()), ReplyView::Answer(false)),
            ] + p.install + p.enable),
            Err(m),
        )),
        marked || (p.installed is Ok && p.enabled is Ok) ==> leads(
            start_rule(host, config, id),
            start_first(host),
            p.save + p.ensure + setup_talk(marked, p),
            StepView::Perform(StartView::Lock, EffectView::LockChild),
        ),
{
    let rule = start_rule(host, config, id);
    let first = start_first(host);
    let one = p.save + p.ensure;
    let probe = StepView::<StartView, ()>::Perform(
        StartView::Probe,
        EffectView::Exists(initialized_marker()),
    );
    law_starting_prepares(host, config, id, p);
    lemma_start_launches(host, config, id, p);
    let two = seq![(EffectView::Exists(initialized_marker()), ReplyView::Answer(false))];
    let a = start_install(host, launch_first(host));
    let b = start_install(host, StepView::Finished(p.installed));
    assert(leads(rule, probe, two, a)) by {
        reveal_with_fuel(leads, 2);
    }
    lemma_joined(rule, probe, two, a, p.install, b);
    lemma_joined(rule, first, one, probe, two + p.install, b);
    if p.installed is Ok {
        let c = start_enable(StepView::Finished(p.enabled));
        lemma_joined(rule, probe, two + p.install, b, p.enable, c);
        lemma_joined(rule, first, one, probe, two + p.install + p.enable, c);
        if p.enabled is Ok && !marked {
            let mark = seq![(EffectView::WriteText(initialized_marker(), "ok"@), done())];
            assert(leads(rule, c, mark, start_lock())) by {
                reveal_with_fuel(leads, 2);
            }
            lemma_joined(rule, probe, two + p.install + p.enable, c, mark, start_lock());
            lemma_joined(rule, first, one, probe, setup_talk(false, p), start_lock());
        }
    }
    if marked {
        assert(leads(rule, probe, setup_talk(true, p), start_lock())) by {
            reveal_with_fuel(leads, 2);
        }
        lemma_joined(rule, first, one, probe, setup_talk(true, p), start_lock());
    }
}

/// A server that is found running is left alone, and starting is done. Otherwise, under the lock,
/// the server is started, step by step as a job goes; then the lock is given back, the server is
/// waited for and registered, each step by step as it goes by itself, and starting ends as
/// registering does. What fails on the way ends starting with its message.
pub proof fn law_starting_serves(
    host: HostView,
    config: ConfigView,
    id: Text,
    p: Parts,
    marked: bool,
    child: ChildState,
    idle: ReplyView,
)
    requires
        are_parts(host, config, id, p),
        p.saved is Ok,
        p.ensured is Ok,
        marked || (p.installed is Ok && p.enabled is Ok),
    ensures
        ({
            let rule = start_rule(host, config, id);
            let before = p.save + p.ensure + setup_talk(marked, p) + ask_child_talk(child);
            let serving = before + p.serve;
            let waiting = serving + (seq![(EffectView::UnlockChild, idle)] + p.wait);
            if child == ChildState::Running {
                ends(rule, start_first(host), before, Ok(()))
            } else {
                match (p.served, p.waited) {
                    (Err(m), _) => ends(rule, start_first(host), serving, Err(m)),
                    (Ok(_), Err(m)) => ends(rule, start_first(host), waiting, Err(m)),
                    (Ok(_), Ok(_)) => ends(
                        rule,
                        start_first(host),
                        waiting + p.register,
                        p.registered,
                    ),
                }
            }
        }),
{
    let rule = start_rule(host, config, id);
    let first = start_first(host);
    let set_up = p.save + p.ensure + setup_talk(marked, p);
    let before = set_up + ask_child_talk(child);
    law_starting_sets_up(host, config, id, p, marked);
    lemma_start_launches(host, config, id, p);
    lemma_start_last(host, config, id, p);
    let a = start_step(
        host,
        config,
        id,
        StartView::Poll,
        ReplyView::Child(Ok(child)),
    );
    assert(leads(rule, start_lock(), ask_child_talk(child), a)) by {
        reveal_with_fuel(leads, 3);
    }
    lemma_joined(rule, first, set_up, start_lock(), ask_child_talk(child), a);
    if child != ChildState::Running {
        let b = start_serve(StepView::Finished(p.served));
        lemma_joined(rule, first, before, a, p.serve, b);
        if p.served is Ok {
            let unlock = seq![(EffectView::UnlockChild, idle)];
            let c = start_wait(StepView::Finished(p.waited));
            assert(leads(rule, b, unlock, start_wait(ask(0)))) by {
                reveal_with_fuel(leads, 2);
            }
            lemma_joined(rule, b, unlock, start_wait(ask(0)), p.wait, c);
            lemma_joined(rule, first, before + p.serve, b, unlock + p.wait, c);
            if p.waited is Ok {
                lemma_joined(
                    rule,
                    first,
                    before + p.serve + (unlock + p.wait),
                    c,
                    p.register,
                    start_register(StepView::Finished(p.registered)),
                );
            }
        }
    }
}

proof fn lemma_heeds_register(
    host: HostView,
    config: ConfigView,
    id: Text,
    x: StepView<RegisterView, ()>,
)
    requires
        heeds(register_rule(host, config), x),
    ensures
        heeds(start_rule(host, config, id), start_register(x)),
{
    match x {
        StepView::Perform(s, e) => {
            lemma_heeds_within(
                register_rule(host, config),
                start_rule(host, config, id),
                |s: RegisterView| StartView::Register(s),
                |x: StepView<RegisterView, ()>| start_register(x),
                s,
                e,
            );
        },
        StepView::Finished(Ok(_)) => {
        },
        StepView::Finished(Err(_)) => {},
    }
}

proof fn lemma_heeds_wait(
    host: HostView,
    config: ConfigView,
    id: Text,
    x: StepView<ApiPhase, ()>,
)
    requires
        heeds(api_rule(), x),
    ensures
        heeds(start_rule(host, config, id), start_wait(x)),
{
    match x {
        StepView::Perform(s, e) => {
            lemma_heeds_within(
                api_rule(),
                start_rule(host, config, id),
                |s: ApiPhase| StartView::Wait(s),
                |x: StepView<ApiPhase, ()>| start_wait(x),
                s,
                e,
            );
        },
        StepView::Finished(Ok(_)) => {
            lemma_heeds_register(host, config, id, register_first());
        },
        StepView::Finished(Err(_)) => {},
    }
}

proof fn lemma_heeds_serve(
    host: HostView,
    config: ConfigView,
    id: Text,
    x: StepView<LaunchView, ()>,
)
    requires
        heeds(launch_rule(host, config, Job::Serve), x),
    ensures
        heeds(start_rule(host, config, id), start_serve(x)),
{
    match x {
        StepView::Perform(s, e) => {
            lemma_heeds_within(
                launch_rule(host, config, Job::Serve),
                start_rule(host, config, id),
                |s: LaunchView| StartView::Serve(s),
                |x: StepView<LaunchView, ()>| start_serve(x),
                s,
                e,
            );
        },
        StepView::Finished(Ok(_)) => {
        },
        StepView::Finished(Err(_)) => {},
    }
}

proof fn lemma_heeds_enable(
    host: HostView,
    config: ConfigView,
    id: Text,
    x: StepView<LaunchView, ()>,
)
    requires
        heeds(launch_rule(host, config, Job::EnablePlugin), x),
    ensures
        heeds(start_rule(host, config, id), start_enable(x)),
{
    match x {
        StepView::Perform(s, e) => {
            lemma_heeds_within(
                launch_rule(host, config, Job::EnablePlugin),
                start_rule(host, config, id),
                |s: LaunchView| StartView::Enable(s),
                |x: StepView<LaunchView, ()>| start_enable(x),
                s,
                e,
            );
        },
        StepView::Finished(Ok(_)) => {
        },
        StepView::Finished(Err(_)) => {},
    }
}

proof fn lemma_heeds_install(
    host: HostView,
    config: ConfigView,
    id: Text,
    x: StepView<LaunchView, ()>,
)
    requires
        heeds(launch_rule(host, config, Job::Install), x),
    ensures
        heeds(start_rule(host, config, id), start_install(host, x)),
{
    match x {
        StepView::Perform(s, e) => {
            lemma_heeds_within(
                launch_rule(host, config, Job::Install),
                start_rule(host, config, id),
                |s: LaunchView| StartView::Install(s),
                |x: StepView<LaunchView, ()>| start_install(host, x),
                s,
                e,
            );
        },
        StepView::Finished(Ok(_)) => {
            lemma_heeds_enable(host, config, id, launch_first(host));
        },
        StepView::Finished(Err(_)) => {},
    }
}

proof fn lemma_heeds_ensure(
    host: HostView,
    config: ConfigView,
    id: Text,
    x: StepView<EnsurePhase, PathView>,
)
    requires
        heeds(ensure_rule(host, id), x),
    ensures
        heeds(start_rule(host, config, id), start_ensure(x)),
{
    match x {
        StepView::Perform(s, e) => {
            lemma_heeds_within(
                ensure_rule(host, id),
                start_rule(host, config, id),
                |s: EnsurePhase| StartView::Ensure(s),
                |x: StepView<EnsurePhase, PathView>| start_ensure(x),
                s,
                e,
            );
        },
        StepView::Finished(Ok(_)) => {
        },
        StepView::Finished(Err(_)) => {},
    }
}

proof fn lemma_heeds_save(
    host: HostView,
    config: ConfigView,
    id: Text,
    x: StepView<SavePhase, ()>,
)
    requires
        heeds(save_rule(host, config), x),
    ensures
        heeds(start_rule(host, config, id), start_save(host, x)),
{
    match x {
        StepView::Perform(s, e) => {
            lemma_heeds_within(
                save_rule(host, config),
                start_rule(host, config, id),
                |s: SavePhase| StartView::Save(s),
                |x: StepView<SavePhase, ()>| start_save(host, x),
                s,
                e,
            );
        },
        StepView::Finished(Ok(_)) => {
            lemma_heeds_ensure(host, config, id, ensure_first(host));
        },
        StepView::Finished(Err(_)) => {},
    }
}

/// Every step of starting waits so that it ends with a failure that it is told.
proof fn lemma_heeds_start(
    host: HostView,
    config: ConfigView,
    id: Text,
    s: StartView,
    r: ReplyView,
)
    ensures
        heeds(start_rule(host, config, id), start_step(host, config, id, s, r)),
{
    match s {
        StartView::Save(p) => {
            assert(heeds(save_rule(host, config), save_step(host, config, p, r)));
            lemma_heeds_save(host, config, id, save_step(host, config, p, r));
        },
        StartView::Ensure(p) => {
            assert(heeds(ensure_rule(host, id), ensure_step(host, id, p, r)));
            lemma_heeds_ensure(host, config, id, ensure_step(host, id, p, r));
        },
        StartView::Probe => {
            lemma_heeds_install(host, config, id, launch_first(host));
        },
        StartView::Install(p) => {
            let x = launch_step(host, config, Job::Install, p, r);
            assert(heeds(launch_rule(host, config, Job::Install), x));
            lemma_heeds_install(host, config, id, x);
        },
        StartView::Enable(p) => {
            let x = launch_step(host, config, Job::EnablePlugin, p, r);
            assert(heeds(launch_rule(host, config, Job::EnablePlugin), x));
            lemma_heeds_enable(host, config, id, x);
        },
        StartView::Mark => {},
        StartView::Lock => {},
        StartView::Poll => {
            lemma_heeds_serve(host, config, id, launch_first(host));
        },
        StartView::Serve(p) => {
            let x = launch_step(host, config, Job::Serve, p, r);
            assert(heeds(launch_rule(host, config, Job::Serve), x));
            lemma_heeds_serve(host, config, id, x);
        },
        StartView::Unlock => {
            lemma_heeds_wait(host, config, id, ask(0));
        },
        StartView::Wait(p) => {
            assert(heeds(api_rule(), api_step(p, r)));
            lemma_heeds_wait(host, config, id, api_step(p, r));
        },
        StartView::Register(p) => {
            let x = register_step(host, config, p, r);
            assert(heeds(register_rule(host, config), x));
            lemma_heeds_register(host, config, id, x);
        },
    }
}

/// Starting ends with every failure that it is told, at whatever point.
pub proof fn law_starting_heeds_failures(
    host: HostView,
    config: ConfigView,
    id: Text,
    replies: Seq<ReplyView>,
)
    ensures
        heeds(
            start_rule(host, config, id),
            run(start_rule(host, config, id), start_first(host), replies),
        ),
{
    let rule = start_rule(host, config, id);
    lemma_heeds_save(host, config, id, save_first(host));
    assert forall|s: StartView, r: ReplyView| #![trigger rule(s, r)] heeds(rule, rule(s, r)) by {
        lemma_heeds_start(host, config, id, s, r);
    }
    lemma_heeds(rule, start_first(host), replies);
}

} // verus!
