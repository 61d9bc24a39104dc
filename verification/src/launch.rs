//! Running the bundled Node.js, with what it prints in the log.
use vstd::prelude::*;

use crate::command::{
    job_command, login_shell_path, node_command, shell_path, shell_query, shell_query_args,
    CommandView, Job,
};
use crate::config::{ConfigView, DatabaseConfig};
use crate::effect::{
    asked, fails, lemma_run_prefix, run, succeeds, Effect, EffectView, Reply, ReplyView, Step,
    StepView,
};
use crate::layout::{
    bundled_resource, home_unknown, log_dir, log_file, log_file_path, log_path, need_resources,
    resource, runtime, runtime_path, Host, HostView,
};
use crate::text::{option_view, Text};

verus! {

/// What the procedure waits for. The flag says in which of its two places Node.js lies; behind
/// it stands the search path of the login shell, where one is known.
#[derive(Debug, PartialEq, Eq)]
pub enum LaunchPhase {
    FindNode,
    AskShell(bool),
    CreateLogDir(bool, Option<String>),
    OpenLog(bool, Option<String>),
    Execute,
}

/// The mathematical model of a `LaunchPhase`.
pub enum LaunchView {
    FindNode,
    AskShell(bool),
    CreateLogDir(bool, Option<Text>),
    OpenLog(bool, Option<Text>),
    Execute,
}

impl View for LaunchPhase {
    type V = LaunchView;

    open spec fn view(&self) -> LaunchView {
        match self {
            LaunchPhase::FindNode => LaunchView::FindNode,
            LaunchPhase::AskShell(n) => LaunchView::AskShell(*n),
            LaunchPhase::CreateLogDir(n, p) => LaunchView::CreateLogDir(*n, option_view(*p)),
            LaunchPhase::OpenLog(n, p) => LaunchView::OpenLog(*n, option_view(*p)),
            LaunchPhase::Execute => LaunchView::Execute,
        }
    }
}

/// The first thing to do: look for Node.js.
pub open spec fn launch_first(host: HostView) -> StepView<LaunchView, ()> {
    match host.resources {
        Ok(_) => StepView::Perform(
            LaunchView::FindNode,
            EffectView::Exists(resource("node"@, true)),
        ),
        Err(m) => fails(m),
    }
}

/// Make sure of the directory of the log.
pub open spec fn append_log(host: HostView, nested: bool, path: Option<Text>) -> StepView<
    LaunchView,
    (),
> {
    if host.home_found {
        StepView::Perform(
            LaunchView::CreateLogDir(nested, path),
            EffectView::CreateDirs(log_dir()),
        )
    } else {
        fails(home_unknown())
    }
}

/// How the procedure goes on from `phase` when the reply `r` has come. The server is started
/// and left running; every other job runs to its end and has to succeed.
pub open spec fn launch_step(
    host: HostView,
    config: ConfigView,
    job: Job,
    phase: LaunchView,
    r: ReplyView,
) -> StepView<LaunchView, ()> {
    match phase {
        LaunchView::FindNode => match r.answer() {
            Ok(nested) => if host.unix {
                StepView::Perform(
                    LaunchView::AskShell(nested),
                    EffectView::Capture("/bin/zsh"@, shell_query_args()),
                )
            } else {
                append_log(host, nested, None)
            },
            Err(m) => fails(m),
        },
        LaunchView::AskShell(nested) => append_log(host, nested, shell_path(r.output())),
        LaunchView::CreateLogDir(nested, path) => match r.done() {
            Ok(_) => StepView::Perform(
                LaunchView::OpenLog(nested, path),
                EffectView::OpenLog(log_file()),
            ),
            Err(m) => fails(m),
        },
        LaunchView::OpenLog(nested, path) => match r.done() {
            Ok(_) => {
                let command = job_command(
                    resource("node"@, nested),
                    runtime(),
                    config,
                    path,
                    host.unix,
                    job,
                );
                StepView::Perform(
                    LaunchView::Execute,
                    if job == Job::Serve {
                        EffectView::Spawn(command)
                    } else {
                        EffectView::Run(command)
                    },
                )
            },
            Err(m) => fails(m),
        },
        LaunchView::Execute => if job == Job::Serve {
            StepView::Finished(r.done())
        } else {
            match r.status() {
                Ok(true) => succeeds(()),
                Ok(false) => fails(job.failure()),
                Err(m) => fails(m),
            }
        },
    }
}

/// Begins to run the bundled Node.js.
pub fn launch(host: &Host) -> (r: Step<LaunchPhase, ()>)
    ensures
        r@ == launch_first(host@),
{
    match need_resources(host) {
        Ok(_) => Step::Perform(
            LaunchPhase::FindNode,
            Effect::Exists(bundled_resource("node", true)),
        ),
        Err(m) => Step::Finished(Err(m)),
    }
}

fn append_log_step(host: &Host, nested: bool, path: Option<String>) -> (r: Step<LaunchPhase, ()>)
    ensures
        r@ == append_log(host@, nested, option_view(path)),
{
    match log_path(host) {
        Ok(log) => {
            assert(log_file().parts.drop_last() =~= log_dir().parts);
            let dir = log.parent().unwrap();
            Step::Perform(LaunchPhase::CreateLogDir(nested, path), Effect::CreateDirs(dir))
        },
        Err(m) => Step::Finished(Err(m)),
    }
}

/// Goes on from `phase` when the reply has come.
pub fn launch_next(
    host: &Host,
    config: &DatabaseConfig,
    job: Job,
    phase: LaunchPhase,
    reply: Reply,
) -> (r: Step<LaunchPhase, ()>)
    ensures
        r@ == launch_step(host@, config@, job, phase@, reply@),
{
    match phase {
        LaunchPhase::FindNode => match reply.answer() {
            Ok(nested) => if host.unix {
                let (program, args) = shell_query();
                Step::Perform(LaunchPhase::AskShell(nested), Effect::Capture(program, args))
            } else {
                append_log_step(host, nested, None)
            },
            Err(m) => Step::Finished(Err(m)),
        },
        LaunchPhase::AskShell(nested) => append_log_step(
            host,
            nested,
            login_shell_path(reply.output()),
        ),
        LaunchPhase::CreateLogDir(nested, path) => match reply.done() {
            Ok(_) => Step::Perform(
                LaunchPhase::OpenLog(nested, path),
                Effect::OpenLog(log_file_path()),
            ),
            Err(m) => Step::Finished(Err(m)),
        },
        LaunchPhase::OpenLog(nested, path) => match reply.done() {
            Ok(_) => {
                let node = bundled_resource("node", nested);
                let command = node_command(node, runtime_path(), config, path, host.unix, job);
                if job == Job::Serve {
                    Step::Perform(LaunchPhase::Execute, Effect::Spawn(command))
                } else {
                    Step::Perform(LaunchPhase::Execute, Effect::Run(command))
                }
            },
            Err(m) => Step::Finished(Err(m)),
        },
        LaunchPhase::Execute => if job == Job::Serve {
            Step::Finished(reply.done())
        } else {
            match reply.status() {
                Ok(success) => if success {
                    Step::Finished(Ok(()))
                } else {
                    Step::Finished(Err(job.failure_text()))
                },
                Err(m) => Step::Finished(Err(m)),
            }
        },
    }
}

/// Where the procedure stands after all of `replies`.
pub open spec fn launched(
    host: HostView,
    config: ConfigView,
    job: Job,
    replies: Seq<ReplyView>,
) -> StepView<LaunchView, ()> {
    run(
        |s: LaunchView, r: ReplyView| launch_step(host, config, job, s, r),
        launch_first(host),
        replies,
    )
}

/// The search path that the replies tell: the first says where Node.js lies, and the second,
/// where there is a login shell, what the shell has answered.
pub open spec fn told_path(host: HostView, replies: Seq<ReplyView>) -> Option<Text> {
    if host.unix {
        shell_path(replies[1].output())
    } else {
        None
    }
}

/// The command that the replies lead to.
pub open spec fn told_command(
    host: HostView,
    config: ConfigView,
    job: Job,
    replies: Seq<ReplyView>,
) -> CommandView {
    job_command(
        resource("node"@, replies[0].answer() == Ok::<bool, Text>(true)),
        runtime(),
        config,
        told_path(host, replies),
        host.unix,
        job,
    )
}

/// How many replies come before the one to the command itself.
pub open spec fn replies_before(host: HostView) -> int {
    if host.unix {
        4
    } else {
        3
    }
}

/// What is known of a run.
spec fn launch_past(
    host: HostView,
    config: ConfigView,
    job: Job,
    replies: Seq<ReplyView>,
) -> bool {
    let n = replies.len();
    let k = replies_before(host);
    match launched(host, config, job, replies) {
        StepView::Perform(p, e) => match p {
            LaunchView::FindNode => n == 0,
            LaunchView::AskShell(b) => n == 1 && host.unix && replies[0].answer() == Ok::<
                bool,
                Text,
            >(b),
            LaunchView::CreateLogDir(b, path) => n == k - 2 && replies[0].answer() == Ok::<
                bool,
                Text,
            >(b) && path == told_path(host, replies),
            LaunchView::OpenLog(b, path) => n == k - 1 && replies[0].answer() == Ok::<bool, Text>(b)
                && path == told_path(host, replies) && e == EffectView::OpenLog(log_file()),
            LaunchView::Execute => n == k && e == if job == Job::Serve {
                EffectView::Spawn(told_command(host, config, job, replies))
            } else {
                EffectView::Run(told_command(host, config, job, replies))
            } && replies[k - 1].done() is Ok,
        },
        StepView::Finished(Ok(_)) => n > k && if job == Job::Serve {
            replies[k].done() is Ok
        } else {
            replies[k].status() == Ok::<bool, Text>(true)
        },
        StepView::Finished(Err(_)) => true,
    }
}

proof fn lemma_launch_past(
    host: HostView,
    config: ConfigView,
    job: Job,
    replies: Seq<ReplyView>,
)
    ensures
        launch_past(host, config, job, replies),
    decreases replies.len(),
{
    if replies.len() > 0 {
        let before = replies.drop_last();
        lemma_launch_past(host, config, job, before);
        assert(replies.len() > 2 ==> told_path(host, before) == told_path(host, replies));
        assert(replies.len() > 3 ==> told_command(host, config, job, before) == told_command(
            host,
            config,
            job,
            replies,
        ));
    }
}

/// A job succeeds only when its own command, with the search path of the login shell where
/// the shell told one, has been run with the log open, and has succeeded.
pub proof fn law_success_means_the_command_ran(
    host: HostView,
    config: ConfigView,
    job: Job,
    replies: Seq<ReplyView>,
)
    requires
        launched(host, config, job, replies) == succeeds::<LaunchView, ()>(()),
    ensures
        replies.len() > replies_before(host),
        asked(launched(host, config, job, replies.take(replies_before(host)))) == Some(
            if job == Job::Serve {
                EffectView::Spawn(told_command(host, config, job, replies))
            } else {
                EffectView::Run(told_command(host, config, job, replies))
            },
        ),
        asked(launched(host, config, job, replies.take(replies_before(host) - 1))) == Some(
            EffectView::OpenLog(log_file()),
        ),
        if job == Job::Serve {
            replies[replies_before(host)].done() is Ok
        } else {
            replies[replies_before(host)].status() == Ok::<bool, Text>(true)
        },
{
    let k = replies_before(host);
    let next = |s: LaunchView, r: ReplyView| launch_step(host, config, job, s, r);
    let first = launch_first(host);
    lemma_launch_past(host, config, job, replies);
    lemma_launch_past(host, config, job, replies.take(k));
    lemma_launch_past(host, config, job, replies.take(k - 1));
    lemma_launch_past(host, config, job, replies.take(k + 1));
    lemma_run_prefix(next, first, replies, k);
    lemma_run_prefix(next, first, replies, k - 1);
    assert(told_path(host, replies.take(k)) == told_path(host, replies));
}

} // verus!
