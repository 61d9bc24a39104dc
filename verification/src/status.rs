//! What the application tells about the server.
use vstd::prelude::*;

use crate::command_law::law_one_port;
use crate::effect::{
    asked, fails, lemma_run_prefix, run, succeeds, ChildState, Effect, EffectView, Reply,
    ReplyView, Step, StepView,
};
use crate::layout::{
    home_unknown, log_file, log_path, need_home, ready_marker, ready_marker_path, Host, HostView,
    APP_PORT,
};
use crate::text::{decimal, decimal_digits, Text};

verus! {

/// The state of the server, as it is shown to the user.
#[derive(Debug, PartialEq, Eq)]
pub struct RuntimeStatus {
    pub running: bool,
    pub url: String,
    pub runtime_ready: bool,
    pub log_path: String,
}

/// The mathematical model of a `RuntimeStatus`.
pub struct StatusView {
    pub running: bool,
    pub url: Text,
    pub runtime_ready: bool,
    pub log_path: Text,
}

impl View for RuntimeStatus {
    type V = StatusView;

    open spec fn view(&self) -> StatusView {
        StatusView {
            running: self.running,
            url: self.url@,
            runtime_ready: self.runtime_ready,
            log_path: self.log_path@,
        }
    }
}

/// The address of the local server.
pub open spec fn server_url() -> Text {
    "http://127.0.0.1:"@ + decimal_digits(APP_PORT as nat)
}

/// The address of the local server.
pub fn url() -> (r: String)
    ensures
        r@ == server_url(),
{
    "http://127.0.0.1:".to_owned().concat(decimal(APP_PORT).as_str())
}

/// What the procedure waits for. The first flag says whether the server runs, the second
/// whether the runtime is unpacked.
#[derive(Clone, Copy, Debug, PartialEq, Eq, Structural)]
pub enum StatusPhase {
    Lock,
    Poll,
    Forget,
    Connect(bool),
    Probe(bool),
    Display(bool, bool),
}

impl View for StatusPhase {
    type V = StatusPhase;

    open spec fn view(&self) -> StatusPhase {
        *self
    }
}

/// The first thing to do: lock the child.
pub open spec fn status_first() -> StepView<StatusPhase, StatusView> {
    StepView::Perform(StatusPhase::Lock, EffectView::LockChild)
}

/// See whether the local port answers.
pub open spec fn connect(child_running: bool) -> StepView<StatusPhase, StatusView> {
    StepView::Perform(StatusPhase::Connect(child_running), EffectView::Connect(APP_PORT, 200))
}

/// How the procedure goes on from `phase` when the reply `r` has come. The server runs where
/// the child does or the port answers; a child that does not run is forgotten.
pub open spec fn status_step(host: HostView, phase: StatusPhase, r: ReplyView) -> StepView<
    StatusPhase,
    StatusView,
> {
    match phase {
        StatusPhase::Lock => match r.done() {
            Ok(_) => StepView::Perform(StatusPhase::Poll, EffectView::PollChild),
            Err(m) => fails(m),
        },
        StatusPhase::Poll => match r.child() {
            Ok(ChildState::Running) => connect(true),
            Ok(_) => StepView::Perform(StatusPhase::Forget, EffectView::ForgetChild),
            Err(m) => fails(m),
        },
        StatusPhase::Forget => connect(false),
        StatusPhase::Connect(child_running) => match r.answer() {
            Ok(reachable) => if host.home_found {
                StepView::Perform(
                    StatusPhase::Probe(child_running || reachable),
                    EffectView::Exists(ready_marker()),
                )
            } else {
                fails(home_unknown())
            },
            Err(m) => fails(m),
        },
        StatusPhase::Probe(running) => match r.answer() {
            Ok(ready) => if host.home_found {
                StepView::Perform(
                    StatusPhase::Display(running, ready),
                    EffectView::Display(log_file()),
                )
            } else {
                fails(home_unknown())
            },
            Err(m) => fails(m),
        },
        StatusPhase::Display(running, ready) => match r.text() {
            Ok(t) => succeeds(
                StatusView { running, url: server_url(), runtime_ready: ready, log_path: t },
            ),
            Err(m) => fails(m),
        },
    }
}

/// Begins to find out how the server is.
pub fn runtime_status() -> (r: Step<StatusPhase, RuntimeStatus>)
    ensures
        r@ == status_first(),
{
    Step::Perform(StatusPhase::Lock, Effect::LockChild)
}

/// Goes on with finding out from `phase` when the reply has come.
pub fn runtime_status_next(host: &Host, phase: StatusPhase, reply: Reply) -> (r: Step<
    StatusPhase,
    RuntimeStatus,
>)
    ensures
        r@ == status_step(host@, phase, reply@),
{
    match phase {
        StatusPhase::Lock => match reply.done() {
            Ok(_) => Step::Perform(StatusPhase::Poll, Effect::PollChild),
            Err(m) => Step::Finished(Err(m)),
        },
        StatusPhase::Poll => match reply.child() {
            Ok(ChildState::Running) => Step::Perform(
                StatusPhase::Connect(true),
                Effect::Connect(APP_PORT, 200),
            ),
            Ok(_) => Step::Perform(StatusPhase::Forget, Effect::ForgetChild),
            Err(m) => Step::Finished(Err(m)),
        },
        StatusPhase::Forget => Step::Perform(
            StatusPhase::Connect(false),
            Effect::Connect(APP_PORT, 200),
        ),
        StatusPhase::Connect(child_running) => match reply.answer() {
            Ok(reachable) => match need_home(host) {
                Ok(_) => Step::Perform(
                    StatusPhase::Probe(child_running || reachable),
                    Effect::Exists(ready_marker_path()),
                ),
                Err(m) => Step::Finished(Err(m)),
            },
            Err(m) => Step::Finished(Err(m)),
        },
        StatusPhase::Probe(running) => match reply.answer() {
            Ok(ready) => match log_path(host) {
                Ok(log) => Step::Perform(
                    StatusPhase::Display(running, ready),
                    Effect::Display(log),
                ),
                Err(m) => Step::Finished(Err(m)),
            },
            Err(m) => Step::Finished(Err(m)),
        },
        StatusPhase::Display(running, ready) => match reply.text() {
            Ok(t) => Step::Finished(
                Ok(RuntimeStatus { running, url: url(), runtime_ready: ready, log_path: t }),
            ),
            Err(m) => Step::Finished(Err(m)),
        },
    }
}

/// Where telling the status stands after all of `replies`.
pub open spec fn told(host: HostView, replies: Seq<ReplyView>) -> StepView<
    StatusPhase,
    StatusView,
> {
    run(|s: StatusPhase, r: ReplyView| status_step(host, s, r), status_first(), replies)
}

/// The place of the reply that says whether the port answers: one later where a child that
/// does not run had to be forgotten.
pub open spec fn port_reply(replies: Seq<ReplyView>) -> int {
    if replies[1].child() == Ok::<ChildState, Text>(ChildState::Running) {
        2
    } else {
        3
    }
}

/// The child runs or the port answers.
pub open spec fn found_running(replies: Seq<ReplyView>) -> bool {
    ||| replies[1].child() == Ok::<ChildState, Text>(ChildState::Running)
    ||| replies[port_reply(replies)].answer() == Ok::<bool, Text>(true)
}

/// What is known of a run.
spec fn status_past(host: HostView, replies: Seq<ReplyView>) -> bool {
    let n = replies.len();
    let k = port_reply(replies);
    match told(host, replies) {
        StepView::Perform(p, e) => match p {
            StatusPhase::Lock => n == 0,
            StatusPhase::Poll => n == 1 && e == EffectView::PollChild,
            StatusPhase::Forget => n == 2 && k == 3,
            StatusPhase::Connect(b) => n == k && b == (k == 2) && e == EffectView::Connect(
                APP_PORT,
                200,
            ),
            StatusPhase::Probe(b) => n == k + 1 && b == found_running(replies) && e
                == EffectView::Exists(ready_marker()),
            StatusPhase::Display(b, ready) => n == k + 2 && b == found_running(replies)
                && replies[k + 1].answer() == Ok::<bool, Text>(ready) && e == EffectView::Display(
                log_file(),
            ),
        },
        StepView::Finished(Ok(status)) => {
            &&& n >= k + 3
            &&& status.running == found_running(replies)
            &&& status.url == server_url()
            &&& replies[k + 1].answer() == Ok::<bool, Text>(status.runtime_ready)
            &&& replies[k + 2].text() == Ok::<Text, Text>(status.log_path)
        },
        StepView::Finished(Err(_)) => true,
    }
}

proof fn lemma_status_past(host: HostView, replies: Seq<ReplyView>)
    ensures
        status_past(host, replies),
    decreases replies.len(),
{
    if replies.len() > 0 {
        let before = replies.drop_last();
        lemma_status_past(host, before);
        assert(replies.len() > 2 ==> port_reply(before) == port_reply(replies));
        assert(replies.len() > 4 ==> found_running(before) == found_running(replies));
    }
}

/// The status that is told is true: the server runs exactly where the child does or the port
/// answers, the runtime is ready exactly where its mark was found, and the log is shown as the
/// system shows it.
pub proof fn law_status_is_true(host: HostView, replies: Seq<ReplyView>, status: StatusView)
    requires
        told(host, replies) == succeeds::<StatusPhase, StatusView>(status),
    ensures
        replies.len() >= port_reply(replies) + 3,
        asked(told(host, replies.take(1))) == Some(EffectView::PollChild),
        asked(told(host, replies.take(port_reply(replies)))) == Some(
            EffectView::Connect(APP_PORT, 200),
        ),
        status.running == found_running(replies),
        status.url == server_url(),
        asked(told(host, replies.take(port_reply(replies) + 1))) == Some(
            EffectView::Exists(ready_marker()),
        ),
        replies[port_reply(replies) + 1].answer() == Ok::<bool, Text>(status.runtime_ready),
        asked(told(host, replies.take(port_reply(replies) + 2))) == Some(
            EffectView::Display(log_file()),
        ),
        replies[port_reply(replies) + 2].text() == Ok::<Text, Text>(status.log_path),
{
    let next = |s: StatusPhase, r: ReplyView| status_step(host, s, r);
    let k = port_reply(replies);
    lemma_status_past(host, replies);
    assert forall|i: int| 1 <= i <= k + 2 implies #[trigger] status_past(host, replies.take(i)) && (
    told(host, replies.take(i)) is Finished ==> told(host, replies) == told(
        host,
        replies.take(i),
    )) && (i > 1 ==> port_reply(replies.take(i)) == k) by {
        lemma_status_past(host, replies.take(i));
        lemma_run_prefix(next, status_first(), replies, i);
    }
    assert(status_past(host, replies.take(1)));
    assert(status_past(host, replies.take(k)));
    assert(status_past(host, replies.take(k + 1)));
    assert(status_past(host, replies.take(k + 2)));
}

/// A child that runs is never forgotten.
pub proof fn law_running_child_is_kept(host: HostView, phase: StatusPhase, r: ReplyView)
    requires
        asked(status_step(host, phase, r)) == Some(EffectView::ForgetChild),
    ensures
        phase == StatusPhase::Poll,
        r.child() matches Ok(c) && c != ChildState::Running,
{
}

/// Telling the status fails only with a cause: the last reply carries the failure, or was no
/// answer to what was asked, or the home directory is not known.
pub proof fn law_status_fails_with_a_cause(
    host: HostView,
    replies: Seq<ReplyView>,
    r: ReplyView,
    m: Text,
)
    requires
        told(host, replies) is Perform,
        told(host, replies.push(r)) == StepView::<StatusPhase, StatusView>::Finished(Err(m)),
    ensures
        ({
            ||| r == ReplyView::Done(Err(m))
            ||| r == ReplyView::Child(Err(m))
            ||| r == ReplyView::Text(Err(m))
            ||| m == "the reply does not fit the request"@
            ||| !host.home_found && m == "无法确定 HOME 目录"@
        }),
{
    assert(replies.push(r).drop_last() =~= replies);
}

/// The address of the server, as it is shown.
pub proof fn law_url_is_fixed(r: String)
    requires
        call_ensures(url, (), r),
    ensures
        r@ == "http://127.0.0.1:14300"@,
{
    law_one_port();
}

} // verus!
