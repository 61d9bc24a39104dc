//! Ending the server.
use vstd::prelude::*;

use crate::effect::{
    asked, fails, run, succeeds, ChildState, Effect, EffectView, Reply, ReplyView, Signal, Step,
    StepView, Target,
};
use crate::layout::{Host, HostView};
use crate::text::{same_text, Text};

verus! {

/// How often the child is looked at before it is ended by force.
pub const EXIT_POLLS: u32 = 80;

/// What ending the child waits for. The numbers count the looks at the child from 0.
#[derive(Clone, Copy, Debug, PartialEq, Eq, Structural)]
pub enum EndPhase {
    AskChild,
    Poll(u32),
    Pause(u32),
    AskGroup,
    KillGroup,
    KillChild,
    Wait,
}

impl View for EndPhase {
    type V = EndPhase;

    open spec fn view(&self) -> EndPhase {
        *self
    }
}

/// The first thing to do: ask the child to end, where there are signals.
pub open spec fn end_first(host: HostView) -> StepView<EndPhase, ()> {
    if host.unix {
        StepView::Perform(
            EndPhase::AskChild,
            EffectView::SendSignal(Target::Child, Signal::Terminate),
        )
    } else {
        StepView::Perform(EndPhase::KillChild, EffectView::KillTaken)
    }
}

/// Look at the child for the `n`-th time.
pub open spec fn poll(n: u32) -> StepView<EndPhase, ()> {
    StepView::Perform(EndPhase::Poll(n), EffectView::PollTaken)
}

/// How ending the child goes on from `phase` when the reply `r` has come.
pub open spec fn end_step(phase: EndPhase, r: ReplyView) -> StepView<EndPhase, ()> {
    match phase {
        EndPhase::AskChild => poll(0),
        EndPhase::Poll(n) => match r.child() {
            Ok(ChildState::Running) => StepView::Perform(
                EndPhase::Pause(n),
                EffectView::Sleep(100),
            ),
            Ok(_) => StepView::Perform(
                EndPhase::AskGroup,
                EffectView::SendSignal(Target::Group, Signal::Terminate),
            ),
            Err(m) => fails(m),
        },
        EndPhase::Pause(n) => if n + 1 < EXIT_POLLS {
            poll((n + 1) as u32)
        } else {
            StepView::Perform(
                EndPhase::KillGroup,
                EffectView::SendSignal(Target::Group, Signal::Kill),
            )
        },
        EndPhase::AskGroup => succeeds(()),
        EndPhase::KillGroup => StepView::Perform(EndPhase::Wait, EffectView::WaitTaken),
        EndPhase::KillChild => match r.done() {
            Ok(_) => StepView::Perform(EndPhase::Wait, EffectView::WaitTaken),
            Err(m) => fails(m),
        },
        EndPhase::Wait => StepView::Finished(r.done()),
    }
}

/// Begins to end the child that was taken out of its place.
pub fn terminate_child(host: &Host) -> (r: Step<EndPhase, ()>)
    ensures
        r@ == end_first(host@),
{
    if host.unix {
        Step::Perform(EndPhase::AskChild, Effect::SendSignal(Target::Child, Signal::Terminate))
    } else {
        Step::Perform(EndPhase::KillChild, Effect::KillTaken)
    }
}

/// Goes on with ending the child from `phase` when the reply has come.
pub fn terminate_child_next(phase: EndPhase, reply: Reply) -> (r: Step<EndPhase, ()>)
    ensures
        r@ == end_step(phase, reply@),
{
    match phase {
        EndPhase::AskChild => Step::Perform(EndPhase::Poll(0), Effect::PollTaken),
        EndPhase::Poll(n) => match reply.child() {
            Ok(ChildState::Running) => Step::Perform(EndPhase::Pause(n), Effect::Sleep(100)),
            Ok(_) => Step::Perform(
                EndPhase::AskGroup,
                Effect::SendSignal(Target::Group, Signal::Terminate),
            ),
            Err(m) => Step::Finished(Err(m)),
        },
        EndPhase::Pause(n) => if n < EXIT_POLLS - 1 {
            Step::Perform(EndPhase::Poll(n + 1), Effect::PollTaken)
        } else {
            Step::Perform(EndPhase::KillGroup, Effect::SendSignal(Target::Group, Signal::Kill))
        },
        EndPhase::AskGroup => Step::Finished(Ok(())),
        EndPhase::KillGroup => Step::Perform(EndPhase::Wait, Effect::WaitTaken),
        EndPhase::KillChild => match reply.done() {
            Ok(_) => Step::Perform(EndPhase::Wait, Effect::WaitTaken),
            Err(m) => Step::Finished(Err(m)),
        },
        EndPhase::Wait => Step::Finished(reply.done()),
    }
}

/// The number by which the system knows a process identifier that is handed out as `pid`.
pub open spec fn signed_pid(pid: u32) -> int {
    if pid < 0x8000_0000 {
        pid as int
    } else {
        pid - 0x1_0000_0000
    }
}

/// The number that names the receiver of a signal: the process, or, as its negative, the
/// group that the process leads.
pub fn signal_target(pid: u32, target: Target) -> (r: i32)
    requires
        target == Target::Group ==> pid != 0x8000_0000,
    ensures
        r == match target {
            Target::Child => signed_pid(pid),
            Target::Group => -signed_pid(pid),
        },
{
    let id: i32 = #[verifier::truncate]
    (pid as i32);
    assert(pid < 0x8000_0000 ==> (pid as i32) == pid) by (bit_vector);
    assert(pid >= 0x8000_0000 ==> (pid as i32) == pid - 0x1_0000_0000) by (bit_vector);
    match target {
        Target::Child => id,
        Target::Group => -id,
    }
}

/// What stopping the server waits for.
#[derive(Clone, Copy, Debug, PartialEq, Eq, Structural)]
pub enum StopPhase {
    Lock,
    Take,
    End(EndPhase),
}

impl View for StopPhase {
    type V = StopPhase;

    open spec fn view(&self) -> StopPhase {
        *self
    }
}

/// The first thing to do: lock the child.
pub open spec fn stop_first() -> StepView<StopPhase, ()> {
    StepView::Perform(StopPhase::Lock, EffectView::LockChild)
}

/// A step of ending the child as a step of stopping the server.
pub open spec fn stop_end(step: StepView<EndPhase, ()>) -> StepView<StopPhase, ()> {
    match step {
        StepView::Perform(p, e) => StepView::Perform(StopPhase::End(p), e),
        StepView::Finished(r) => StepView::Finished(r),
    }
}

/// How stopping the server goes on from `phase` when the reply `r` has come.
pub open spec fn stop_step(host: HostView, phase: StopPhase, r: ReplyView) -> StepView<
    StopPhase,
    (),
> {
    match phase {
        StopPhase::Lock => match r.done() {
            Ok(_) => StepView::Perform(StopPhase::Take, EffectView::TakeChild),
            Err(m) => fails(m),
        },
        StopPhase::Take => match r.answer() {
            Ok(true) => stop_end(end_first(host)),
            Ok(false) => succeeds(()),
            Err(m) => fails(m),
        },
        StopPhase::End(p) => stop_end(end_step(p, r)),
    }
}

/// Begins to stop the server.
pub fn stop_runtime() -> (r: Step<StopPhase, ()>)
    ensures
        r@ == stop_first(),
{
    Step::Perform(StopPhase::Lock, Effect::LockChild)
}

fn stop_end_step(step: Step<EndPhase, ()>) -> (r: Step<StopPhase, ()>)
    ensures
        r@ == stop_end(step@),
{
    match step {
        Step::Perform(p, e) => Step::Perform(StopPhase::End(p), e),
        Step::Finished(r) => Step::Finished(r),
    }
}

/// Goes on with stopping the server from `phase` when the reply has come.
pub fn stop_runtime_next(host: &Host, phase: StopPhase, reply: Reply) -> (r: Step<StopPhase, ()>)
    ensures
        r@ == stop_step(host@, phase, reply@),
{
    match phase {
        StopPhase::Lock => match reply.done() {
            Ok(_) => Step::Perform(StopPhase::Take, Effect::TakeChild),
            Err(m) => Step::Finished(Err(m)),
        },
        StopPhase::Take => match reply.answer() {
            Ok(there) => if there {
                stop_end_step(terminate_child(host))
            } else {
                Step::Finished(Ok(()))
            },
            Err(m) => Step::Finished(Err(m)),
        },
        StopPhase::End(p) => stop_end_step(terminate_child_next(p, reply)),
    }
}

/// What closing the application waits for.
#[derive(Clone, Copy, Debug, PartialEq, Eq, Structural)]
pub enum ClosePhase {
    Stop(StopPhase),
    Unlock,
    Exit,
}

impl View for ClosePhase {
    type V = ClosePhase;

    open spec fn view(&self) -> ClosePhase {
        *self
    }
}

/// A step of stopping the server as a step of closing the application, which goes on
/// whether or not stopping has succeeded.
pub open spec fn close_stop(step: StepView<StopPhase, ()>) -> StepView<ClosePhase, ()> {
    match step {
        StepView::Perform(p, e) => StepView::Perform(ClosePhase::Stop(p), e),
        StepView::Finished(_) => StepView::Perform(ClosePhase::Unlock, EffectView::UnlockChild),
    }
}

/// The first thing to do when something happens to a window: only the end of the main window
/// closes the application.
pub open spec fn close_first(label: Text, destroyed: bool) -> StepView<ClosePhase, ()> {
    if label == "main"@ && destroyed {
        close_stop(stop_first())
    } else {
        succeeds(())
    }
}

/// How closing the application goes on from `phase` when the reply `r` has come.
pub open spec fn close_step(host: HostView, phase: ClosePhase, r: ReplyView) -> StepView<
    ClosePhase,
    (),
> {
    match phase {
        ClosePhase::Stop(p) => close_stop(stop_step(host, p, r)),
        ClosePhase::Unlock => StepView::Perform(ClosePhase::Exit, EffectView::Exit(0)),
        ClosePhase::Exit => succeeds(()),
    }
}

fn close_stop_step(step: Step<StopPhase, ()>) -> (r: Step<ClosePhase, ()>)
    ensures
        r@ == close_stop(step@),
{
    match step {
        Step::Perform(p, e) => Step::Perform(ClosePhase::Stop(p), e),
        Step::Finished(_) => Step::Perform(ClosePhase::Unlock, Effect::UnlockChild),
    }
}

/// Begins what follows when something happens to the window `label`.
pub fn on_window_event(label: &str, destroyed: bool) -> (r: Step<ClosePhase, ()>)
    ensures
        r@ == close_first(label@, destroyed),
{
    if destroyed && same_text(label, "main") {
        close_stop_step(stop_runtime())
    } else {
        Step::Finished(Ok(()))
    }
}

/// Goes on with closing the application from `phase` when the reply has come.
pub fn on_window_event_next(host: &Host, phase: ClosePhase, reply: Reply) -> (r: Step<
    ClosePhase,
    (),
>)
    ensures
        r@ == close_step(host@, phase, reply@),
{
    match phase {
        ClosePhase::Stop(p) => close_stop_step(stop_runtime_next(host, p, reply)),
        ClosePhase::Unlock => Step::Perform(ClosePhase::Exit, Effect::Exit(0)),
        ClosePhase::Exit => Step::Finished(Ok(())),
    }
}

/// The answer to the `k`-th look at the child.
pub open spec fn look(replies: Seq<ReplyView>, k: int) -> Result<ChildState, Text> {
    replies[2 * k + 1].child()
}

/// The first `m` looks have all found the child running.
pub open spec fn runs_on(replies: Seq<ReplyView>, m: int) -> bool {
    forall|k: int|
        0 <= k < m ==> #[trigger] look(replies, k) == Ok::<ChildState, Text>(ChildState::Running)
}

/// Where ending the child stands after all of `replies`.
pub open spec fn ended(host: HostView, replies: Seq<ReplyView>) -> StepView<EndPhase, ()> {
    run(|s: EndPhase, r: ReplyView| end_step(s, r), end_first(host), replies)
}

/// The effect that the `i`-th reply answers is a signal to the whole group.
pub open spec fn signals_group(host: HostView, replies: Seq<ReplyView>, i: int) -> bool {
    &&& 0 <= i < replies.len()
    &&& asked(ended(host, replies.take(i))) matches Some(EffectView::SendSignal(t, _)) && t
        == Target::Group
}

/// What is known of a run that ends the child by signals.
spec fn end_past(host: HostView, replies: Seq<ReplyView>) -> bool {
    let n = replies.len();
    match ended(host, replies) {
        StepView::Perform(p, e) => match p {
            EndPhase::AskChild => n == 0 && e == EffectView::SendSignal(
                Target::Child,
                Signal::Terminate,
            ),
            EndPhase::Poll(k) => k < EXIT_POLLS && n == 2 * k + 1 && runs_on(replies, k as int) && e
                == EffectView::PollTaken,
            EndPhase::Pause(k) => k < EXIT_POLLS && n == 2 * k + 2 && runs_on(replies, k + 1) && e
                == EffectView::Sleep(100),
            EndPhase::AskGroup => e == EffectView::SendSignal(Target::Group, Signal::Terminate),
            EndPhase::KillGroup => n == 2 * EXIT_POLLS + 1 && runs_on(
                replies,
                EXIT_POLLS as int,
            ) && e == EffectView::SendSignal(Target::Group, Signal::Kill),
            EndPhase::KillChild => false,
            EndPhase::Wait => e == EffectView::WaitTaken && exists|i: int|
                signals_group(host, replies, i),
        },
        StepView::Finished(Ok(_)) => exists|i: int| signals_group(host, replies, i),
        StepView::Finished(Err(_)) => true,
    }
}

proof fn lemma_end_past(host: HostView, replies: Seq<ReplyView>)
    requires
        host.unix,
    ensures
        end_past(host, replies),
    decreases replies.len(),
{
    if replies.len() > 0 {
        let before = replies.drop_last();
        let n = before.len() as int;
        lemma_end_past(host, before);
        assert(replies.take(n) =~= before);
        assert forall|k: int| 0 <= k && 2 * k + 1 < n implies #[trigger] look(replies, k) == look(
            before,
            k,
        ) by {
            assert(replies[2 * k + 1] == before[2 * k + 1]);
        }
        match ended(host, before) {
            StepView::Perform(p, e) => match p {
                EndPhase::Poll(k) => {
                    assert(look(replies, k as int) == replies.last().child());
                },
                EndPhase::AskGroup => {
                    assert(signals_group(host, replies, n));
                },
                EndPhase::KillGroup => {
                    assert(signals_group(host, replies, n));
                },
                EndPhase::Wait => {
                    let i = choose|i: int| signals_group(host, before, i);
                    assert(replies.take(i) =~= before.take(i));
                    assert(signals_group(host, replies, i));
                },
                _ => {},
            },
            StepView::Finished(Ok(_)) => {
                let i = choose|i: int| signals_group(host, before, i);
                assert(replies.take(i) =~= before.take(i));
                assert(signals_group(host, replies, i));
            },
            StepView::Finished(Err(_)) => {},
        }
    }
}

/// A child that every look finds running is looked at until the looks are used up, and its group
/// is killed then.
proof fn lemma_still_running(host: HostView, replies: Seq<ReplyView>)
    requires
        host.unix,
        replies.len() <= 2 * EXIT_POLLS + 1,
        runs_on(replies, replies.len() as int / 2),
    ensures
        ended(host, replies) == if replies.len() == 0 {
            end_first(host)
        } else if replies.len() == 2 * EXIT_POLLS + 1 {
            StepView::Perform(
                EndPhase::KillGroup,
                EffectView::SendSignal(Target::Group, Signal::Kill),
            )
        } else if replies.len() % 2 == 1 {
            poll((replies.len() / 2) as u32)
        } else {
            StepView::Perform(
                EndPhase::Pause((replies.len() / 2 - 1) as u32),
                EffectView::Sleep(100),
            )
        },
    decreases replies.len(),
{
    if replies.len() > 0 {
        let before = replies.drop_last();
        let n = before.len() as int;
        assert forall|k: int| 0 <= k < n / 2 implies #[trigger] look(before, k) == Ok::<
            ChildState,
            Text,
        >(ChildState::Running) by {
            assert(look(replies, k) == Ok::<ChildState, Text>(ChildState::Running));
            assert(replies[2 * k + 1] == before[2 * k + 1]);
        }
        lemma_still_running(host, before);
        if n % 2 == 1 {
            assert(look(replies, n / 2) == replies.last().child());
        }
    }
}

/// The group is killed exactly when the child, asked to end, has been found running eighty
/// times, a tenth of a second apart; and never anything but the group.
pub proof fn law_force_is_the_last_resort(host: HostView, replies: Seq<ReplyView>)
    requires
        host.unix,
    ensures
        asked(ended(host, replies)) == Some(EffectView::SendSignal(Target::Group, Signal::Kill))
            <==> replies.len() == 2 * EXIT_POLLS + 1 && runs_on(replies, EXIT_POLLS as int),
        asked(ended(host, replies)) matches Some(EffectView::SendSignal(t, Signal::Kill)) ==> t
            == Target::Group,
{
    lemma_end_past(host, replies);
    if replies.len() == 2 * EXIT_POLLS + 1 && runs_on(replies, EXIT_POLLS as int) {
        lemma_still_running(host, replies);
    }
}

/// Ending the child succeeds only when its whole group has been sent a signal.
pub proof fn law_success_reaches_the_group(host: HostView, replies: Seq<ReplyView>)
    requires
        host.unix,
        ended(host, replies) matches StepView::Finished(Ok(_)),
    ensures
        exists|i: int| signals_group(host, replies, i),
{
    lemma_end_past(host, replies);
}

/// The `i`-th effect was a look at the child, and the child had ended.
pub open spec fn seen_ended(host: HostView, replies: Seq<ReplyView>, i: int) -> bool {
    &&& 0 <= i < replies.len()
    &&& asked(ended(host, replies.take(i))) == Some(EffectView::PollTaken)
    &&& replies[i].child() matches Ok(c) && c != ChildState::Running
}

/// The `i`-th effect was to wait for the end of the child, and the end came.
pub open spec fn waited_for(host: HostView, replies: Seq<ReplyView>, i: int) -> bool {
    &&& 0 <= i < replies.len()
    &&& asked(ended(host, replies.take(i))) == Some(EffectView::WaitTaken)
    &&& replies[i].done() is Ok
}

/// The child is known to have ended.
pub open spec fn known_ended(host: HostView, replies: Seq<ReplyView>) -> bool {
    ||| exists|i: int| seen_ended(host, replies, i)
    ||| exists|i: int| waited_for(host, replies, i)
}

proof fn lemma_known_ended(host: HostView, replies: Seq<ReplyView>)
    ensures
        match ended(host, replies) {
            StepView::Perform(p, e) => {
                &&& p is Poll ==> e == EffectView::PollTaken
                &&& p is Wait ==> e == EffectView::WaitTaken
                &&& p is AskGroup ==> known_ended(host, replies)
            },
            StepView::Finished(Ok(_)) => known_ended(host, replies),
            StepView::Finished(Err(_)) => true,
        },
    decreases replies.len(),
{
    if replies.len() > 0 {
        let before = replies.drop_last();
        let n = before.len() as int;
        lemma_known_ended(host, before);
        assert(replies.take(n) =~= before);
        if exists|i: int| seen_ended(host, before, i) {
            let i = choose|i: int| seen_ended(host, before, i);
            assert(replies.take(i) =~= before.take(i));
            assert(seen_ended(host, replies, i));
        }
        if exists|i: int| waited_for(host, before, i) {
            let i = choose|i: int| waited_for(host, before, i);
            assert(replies.take(i) =~= before.take(i));
            assert(waited_for(host, replies, i));
        }
        if let StepView::Perform(p, _) = ended(host, before) {
            if p is Poll && ended(host, replies) is Perform && ended(host, replies)->Perform_0
                is AskGroup {
                assert(seen_ended(host, replies, n));
            }
            if p is Wait && replies.last().done() is Ok {
                assert(waited_for(host, replies, n));
            }
        }
    }
}

/// Ending the child succeeds only when a look has found it ended, or waiting for its end has
/// succeeded.
pub proof fn law_success_means_the_child_has_ended(host: HostView, replies: Seq<ReplyView>)
    requires
        ended(host, replies) matches StepView::Finished(Ok(_)),
    ensures
        known_ended(host, replies),
{
    lemma_known_ended(host, replies);
}

/// The end of the main window always ends the application: closing is over only after the
/// exit, and it exits with the code 0, whether or not the server could be stopped.
pub proof fn law_closing_ends_the_application(host: HostView, phase: ClosePhase, r: ReplyView)
    ensures
        close_first("main"@, true) is Perform,
        close_step(host, phase, r) is Finished ==> phase == ClosePhase::Exit,
        close_step(host, phase, r) matches StepView::Perform(ClosePhase::Exit, e) ==> e
            == EffectView::Exit(0),
{
}

/// Where stopping the server stands after all of `replies`.
pub open spec fn stopped(host: HostView, replies: Seq<ReplyView>) -> StepView<StopPhase, ()> {
    run(|s: StopPhase, r: ReplyView| stop_step(host, s, r), stop_first(), replies)
}

proof fn lemma_stopped(host: HostView, replies: Seq<ReplyView>)
    requires
        replies.len() > 0,
    ensures
        stopped(host, replies) == match replies[0].done() {
            Err(m) => fails::<StopPhase, ()>(m),
            Ok(_) => if replies.len() == 1 {
                StepView::Perform(StopPhase::Take, EffectView::TakeChild)
            } else {
                match replies[1].answer() {
                    Err(m) => fails(m),
                    Ok(false) => succeeds(()),
                    Ok(true) => stop_end(ended(host, replies.skip(2))),
                }
            },
        },
    decreases replies.len(),
{
    let before = replies.drop_last();
    if before.len() == 0 {
        assert(stopped(host, before) == stop_first());
    } else {
        lemma_stopped(host, before);
        if before.len() == 1 {
            assert(ended(host, replies.skip(2)) == end_first(host));
        } else {
            assert(replies.skip(2).drop_last() =~= before.skip(2));
            assert(replies.skip(2).last() == replies.last());
        }
    }
}

/// Stopping succeeds only when the lock was given and there was no child to stop, or the child
/// that was taken is known to have ended.
pub proof fn law_stopping_leaves_no_child(host: HostView, replies: Seq<ReplyView>)
    requires
        stopped(host, replies) == succeeds::<StopPhase, ()>(()),
    ensures
        replies.len() >= 2,
        replies[0].done() is Ok,
        replies[1].answer() == Ok::<bool, Text>(false) || (replies[1].answer() == Ok::<bool, Text>(
            true,
        ) && known_ended(host, replies.skip(2))),
{
    assert(replies.len() == 0 ==> stopped(host, replies) == stop_first());
    lemma_stopped(host, replies);
    if replies[1].answer() == Ok::<bool, Text>(true) {
        lemma_known_ended(host, replies.skip(2));
    }
}

/// The receiver of a signal is the process that has the identifier, or the negative of it, which
/// names the group: the number is the identifier in 32 bits, read with a sign.
pub proof fn law_receiver_is_the_process_or_its_group(pid: u32, child: i32, group: i32)
    requires
        call_ensures(signal_target, (pid, Target::Child), child),
        call_ensures(signal_target, (pid, Target::Group), group),
    ensures
        child == pid || child + 0x1_0000_0000 == pid,
        pid < 0x8000_0000 ==> child == pid,
        group == -child,
{
}

/// Where closing the application stands after all of `replies`, from the end of the main window.
pub open spec fn closed(host: HostView, replies: Seq<ReplyView>) -> StepView<ClosePhase, ()> {
    run(|s: ClosePhase, r: ReplyView| close_step(host, s, r), close_first("main"@, true), replies)
}

/// Closing runs stopping to its end: as long as stopping, on the same replies, asks for an effect,
/// closing asks for the same; only when stopping is over does closing give the lock back and exit.
/// So the application ends only when the lock failed, there was no child, ending it failed, or the
/// child is known to have ended.
pub proof fn law_closing_runs_stopping_to_its_end(host: HostView, replies: Seq<ReplyView>)
    ensures
        match stopped(host, replies) {
            StepView::Perform(p, e) => closed(host, replies) == StepView::<ClosePhase, ()>::Perform(
                ClosePhase::Stop(p),
                e,
            ),
            StepView::Finished(_) => {
                ||| closed(host, replies) == StepView::<ClosePhase, ()>::Perform(
                    ClosePhase::Unlock,
                    EffectView::UnlockChild,
                )
                ||| closed(host, replies) == StepView::<ClosePhase, ()>::Perform(
                    ClosePhase::Exit,
                    EffectView::Exit(0),
                )
                ||| closed(host, replies) == StepView::<ClosePhase, ()>::Finished(Ok(()))
            },
        },
        asked(closed(host, replies)) == Some(EffectView::Exit(0)) ==> {
            ||| stopped(host, replies) matches StepView::Finished(Err(_))
            ||| replies.len() >= 2 && replies[1].answer() == Ok::<bool, Text>(false)
            ||| replies.len() >= 2 && known_ended(host, replies.skip(2))
        },
    decreases replies.len(),
{
    if replies.len() > 0 {
        law_closing_runs_stopping_to_its_end(host, replies.drop_last());
    }
    match stopped(host, replies) {
        StepView::Perform(_, _) => {
            lemma_stop_never_exits(host, replies);
        },
        StepView::Finished(Ok(u)) => {
            assert(u == ());
            law_stopping_leaves_no_child(host, replies);
        },
        StepView::Finished(Err(_)) => {},
    }
}

/// Stopping by itself never asks to end the application.
proof fn lemma_stop_never_exits(host: HostView, replies: Seq<ReplyView>)
    ensures
        !(asked(stopped(host, replies)) matches Some(EffectView::Exit(_))),
{
    if replies.len() > 0 {
        if let StepView::Perform(p, _) = stopped(host, replies.drop_last()) {
            assert(!(stop_step(host, p, replies.last()) matches StepView::Perform(
                _,
                EffectView::Exit(_),
            )));
        }
    }
}

} // verus!
