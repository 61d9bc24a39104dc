//! What every run of starting the server keeps to.
use vstd::prelude::*;

use crate::api::{is_ready_response, language_request, never_ready};
use crate::command::{job_command, CommandView, Job};
use crate::config::ConfigView;
use crate::config_store::{
    load_first, load_step, save_first, save_rule, save_step, LoadPhase, SavePhase, PRIVATE_MODE,
};
use crate::disk::{is_about_files, performs, runs_on_disk, same_at, Disk, Node};
use crate::effect::{
    asked, follow, lemma_ended, lemma_run_prefix, lemma_run_step, run, succeeds, ChildState,
    EffectView, ReplyView, StepView,
};
use crate::launch::LaunchView;
use crate::layout::{
    config_file, data_dir, home_unknown, initialized_marker, launcher_file, log_file, nb_marker,
    ready_marker, resource, runtime, storage, HostView,
};
use crate::path::PathView;
use crate::progress::{lemma_start_descends, start_rank};
use crate::register::RegisterView;
use crate::start::{start_ensure, start_first, start_save, start_step, StartView};
use crate::text::Text;
use crate::upgrade::{ensure_first, ensure_step, EnsurePhase, EnsureView};
use crate::upgrade_law::{ensure_rule, ensured, law_other_files_lie_apart};

verus! {

/// A run of starting the server: what it was begun with, and the replies that came.
pub struct StartRun {
    pub host: HostView,
    pub config: ConfigView,
    pub id: Text,
    pub replies: Seq<ReplyView>,
}

impl StartRun {
    /// How the procedure goes on.
    pub open spec fn rule(self) -> spec_fn(StartView, ReplyView) -> StepView<StartView, ()> {
        |s: StartView, r: ReplyView| start_step(self.host, self.config, self.id, s, r)
    }

    /// Where the procedure stands after `i` replies.
    pub open spec fn stage(self, i: int) -> StepView<StartView, ()> {
        run(self.rule(), start_first(self.host), self.replies.take(i))
    }

    /// The effect that the `i`-th reply answers, counted from 0.
    pub open spec fn asks(self, i: int) -> Option<EffectView> {
        asked(self.stage(i))
    }

    /// The `i`-th effect was a command, and the command succeeded.
    pub open spec fn ran(self, i: int, job: Job) -> bool {
        &&& 0 <= i < self.replies.len()
        &&& self.replies[i].status() == Ok::<bool, Text>(true)
        &&& self.asks(i) matches Some(EffectView::Run(c)) && c.args == seq![job.script()]
            + job.args()
    }

    /// The `j`-th reply gave the lock, the next one said that no server runs, and the lock
    /// has not been given back before the `i`-th effect.
    pub open spec fn alone_since(self, j: int, i: int) -> bool {
        &&& 0 <= j && j + 1 < i
        &&& self.asks(j) == Some(EffectView::LockChild)
        &&& self.replies[j].done() is Ok
        &&& self.asks(j + 1) == Some(EffectView::PollChild)
        &&& (self.replies[j + 1].child() matches Ok(c) && c != ChildState::Running)
        &&& forall|k: int| j < k <= i ==> #[trigger] self.asks(k) != Some(EffectView::UnlockChild)
    }

    /// The `i`-th reply was the response of a server that has loaded its data sources.
    pub open spec fn answered(self, i: int) -> bool {
        &&& 0 <= i < self.replies.len()
        &&& self.asks(i) == Some(EffectView::Request(language_request()))
        &&& self.replies[i].text() matches Ok(t) && is_ready_response(t)
    }

    /// The `i`-th effect wrote the configuration, and the file was made private.
    pub open spec fn saved(self, i: int) -> bool {
        &&& 1 <= i < self.replies.len()
        &&& self.asks(i - 1) == Some(EffectView::EncodeConfig(self.config))
        &&& self.replies[i - 1].bytes() matches Ok(b) && self.asks(i) == Some(
            EffectView::WriteBytes(config_file(), b),
        )
        &&& self.replies[i].done() is Ok
        &&& self.host.unix ==> i + 1 < self.replies.len() && self.asks(i + 1) == Some(
            EffectView::SetMode(config_file(), PRIVATE_MODE),
        ) && self.replies[i + 1].done() is Ok
    }

    /// One reply more is one step further.
    proof fn lemma_stage(self, i: int)
        requires
            0 <= i < self.replies.len(),
        ensures
            self.stage(i + 1) == follow(self.rule(), self.stage(i), self.replies[i]),
    {
        lemma_run_step(self.rule(), start_first(self.host), self.replies, i);
    }

    /// The beginning.
    proof fn lemma_begin(self)
        ensures
            self.stage(0) == start_first(self.host),
    {
        assert(self.replies.take(0) =~= Seq::empty());
    }

    /// What is known of a run from the phase it waits in.
    spec fn past(self, i: int) -> bool {
        match self.stage(i) {
            StepView::Perform(s, e) => self.known(i, s, e),
            StepView::Finished(_) => true,
        }
    }

    spec fn known(self, i: int, s: StartView, e: EffectView) -> bool {
        &&& e is Spawn ==> s == StartView::Serve(LaunchView::Execute)
        &&& e is UnlockChild <==> s is Unlock
        &&& match s {
            StartView::Lock => e is LockChild,
            StartView::Poll => {
                &&& e is PollChild
                &&& i >= 1
                &&& self.asks(i - 1) == Some(EffectView::LockChild)
                &&& self.replies[i - 1].done() is Ok
            },
            StartView::Serve(_) => exists|j: int| self.alone_since(j, i),
            _ => true,
        }
    }

    /// The effects that a phase asks for.
    #[verifier::rlimit(60)]
    proof fn lemma_effects(self, s: StartView, r: ReplyView)
        ensures
            start_step(self.host, self.config, self.id, s, r) matches StepView::Perform(s2, e) ==> {
                &&& e is Spawn ==> s2 == StartView::Serve(LaunchView::Execute)
                &&& (e is UnlockChild <==> s2 is Unlock)
                &&& (s2 is Lock ==> e is LockChild)
                &&& (s2 is Poll ==> e is PollChild && s is Lock && r.done() is Ok)
                &&& (s2 is Serve ==> s is Serve || (s is Poll && (r.child() matches Ok(c) && c
                    != ChildState::Running)))
            },
    {
    }

    proof fn lemma_past(self, i: int)
        requires
            0 <= i <= self.replies.len(),
        ensures
            self.past(i),
        decreases i,
    {
        if i == 0 {
            self.lemma_begin();
        } else {
            self.lemma_past(i - 1);
            self.lemma_stage(i - 1);
            if let StepView::Perform(s, e) = self.stage(i - 1) {
                let r = self.replies[i - 1];
                self.lemma_effects(s, r);
                if let StepView::Perform(s2, e2) = self.stage(i) {
                    if s2 is Serve {
                        if s is Serve {
                            let h = i - 1;
                            let j = choose|j: int| self.alone_since(j, h);
                            assert(self.alone_since(j, i));
                        } else {
                            assert(self.asks(i - 1) == Some(EffectView::PollChild));
                            assert(self.alone_since(i - 2, i));
                        }
                    }
                }
            }
        }
    }
}

/// A server is started only by a run that holds the lock on the child, and has held it since
/// it learned that none runs.
pub proof fn law_server_is_started_alone(start: StartRun, i: int)
    requires
        0 <= i <= start.replies.len(),
        start.asks(i) matches Some(EffectView::Spawn(_)),
    ensures
        exists|j: int| start.alone_since(j, i),
{
    start.lemma_past(i);
}

impl StartRun {
    /// What is known of the commands that set NocoBase up.
    spec fn setup_past(self, i: int) -> bool {
        match self.stage(i) {
            StepView::Perform(s, e) => match s {
                StartView::Install(p) => {
                    &&& self.unmarked_before(i)
                    &&& p is Execute ==> (e matches EffectView::Run(c) && c.args == seq![
                        Job::Install.script(),
                    ] + Job::Install.args())
                },
                StartView::Enable(p) => {
                    &&& self.unmarked_before(i)
                    &&& exists|k: int| k < i && self.ran(k, Job::Install)
                    &&& p is Execute ==> (e matches EffectView::Run(c) && c.args == seq![
                        Job::EnablePlugin.script(),
                    ] + Job::EnablePlugin.args())
                },
                StartView::Mark => {
                    &&& self.unmarked_before(i)
                    &&& self.set_up_before(i)
                },
                StartView::Probe => e == EffectView::Exists(initialized_marker()),
                _ => true,
            },
            StepView::Finished(_) => true,
        }
    }

    /// The mark of a finished setup was looked for, and it was not there.
    pub open spec fn unmarked_before(self, i: int) -> bool {
        exists|k: int|
            0 <= k < i && #[trigger] self.asks(k) == Some(
                EffectView::Exists(initialized_marker()),
            ) && self.replies[k].answer() == Ok::<bool, Text>(false)
    }

    /// Both commands of the setup have succeeded, one after the other.
    pub open spec fn set_up_before(self, i: int) -> bool {
        exists|k: int, l: int|
            k < l < i && #[trigger] self.ran(k, Job::Install) && #[trigger] self.ran(
                l,
                Job::EnablePlugin,
            )
    }

    #[verifier::rlimit(60)]
    proof fn lemma_setup_effects(self, s: StartView, r: ReplyView)
        ensures
            start_step(self.host, self.config, self.id, s, r) matches StepView::Perform(s2, e) ==> {
                &&& (s2 is Probe ==> e == EffectView::Exists(initialized_marker()))
                &&& (s2 is Install ==> s is Install || (s is Probe && r.answer() == Ok::<
                    bool,
                    Text,
                >(false)))
                &&& (s2 is Enable ==> s is Enable || (s == StartView::Install(LaunchView::Execute)
                    && r.status() == Ok::<bool, Text>(true)))
                &&& (s2 is Mark ==> s == StartView::Enable(LaunchView::Execute) && r.status()
                    == Ok::<bool, Text>(true))
                &&& (s2 == StartView::Install(LaunchView::Execute) ==> (e matches EffectView::Run(
                    c,
                ) && c.args == seq![Job::Install.script()] + Job::Install.args()))
                &&& (s2 == StartView::Enable(LaunchView::Execute) ==> (e matches EffectView::Run(
                    c,
                ) && c.args == seq![Job::EnablePlugin.script()] + Job::EnablePlugin.args()))
            },
    {
    }

    proof fn lemma_setup_past(self, i: int)
        requires
            0 <= i <= self.replies.len(),
        ensures
            self.setup_past(i),
        decreases i,
    {
        if i == 0 {
            self.lemma_begin();
        } else {
            self.lemma_setup_past(i - 1);
            self.lemma_stage(i - 1);
            if let StepView::Perform(s, e) = self.stage(i - 1) {
                let h = i - 1;
                let r = self.replies[h];
                self.lemma_setup_effects(s, r);
                if s is Probe {
                    assert(self.asks(h) == Some(EffectView::Exists(initialized_marker())));
                }
                if s == StartView::Install(LaunchView::Execute) && r.status() == Ok::<
                    bool,
                    Text,
                >(true) {
                    assert(self.ran(h, Job::Install));
                }
                if s == StartView::Enable(LaunchView::Execute) && r.status() == Ok::<bool, Text>(
                    true,
                ) {
                    assert(self.ran(h, Job::EnablePlugin));
                }
            }
        }
    }

    /// What is known of the configuration.
    spec fn saved_past(self, i: int) -> bool {
        match self.stage(i) {
            StepView::Perform(StartView::Save(p), e) => match p {
                SavePhase::CreateDir => true,
                SavePhase::Encode => e == EffectView::EncodeConfig(self.config),
                SavePhase::Write => self.encoded(i) && Some(e) == self.asks(i),
                SavePhase::Protect => {
                    &&& i >= 1
                    &&& self.encoded(i - 1)
                    &&& self.replies[i - 1].done() is Ok
                    &&& e == EffectView::SetMode(config_file(), PRIVATE_MODE)
                },
            },
            StepView::Perform(_, _) => exists|k: int| k < i && self.saved(k),
            StepView::Finished(_) => true,
        }
    }

    /// The `i`-th effect writes what the configuration has been encoded as.
    spec fn encoded(self, i: int) -> bool {
        &&& 1 <= i
        &&& self.asks(i - 1) == Some(EffectView::EncodeConfig(self.config))
        &&& self.replies[i - 1].bytes() matches Ok(b) && self.asks(i) == Some(
            EffectView::WriteBytes(config_file(), b),
        )
    }

    #[verifier::rlimit(60)]
    proof fn lemma_save_effects(self, s: StartView, r: ReplyView)
        ensures
            start_step(self.host, self.config, self.id, s, r) matches StepView::Perform(s2, e) ==> {
                &&& (s2 matches StartView::Save(p) ==> match p {
                    SavePhase::CreateDir => false,
                    SavePhase::Encode => e == EffectView::EncodeConfig(self.config),
                    SavePhase::Write => s == StartView::Save(SavePhase::Encode) && (r.bytes()
                        matches Ok(b) && e == EffectView::WriteBytes(config_file(), b)),
                    SavePhase::Protect => s == StartView::Save(SavePhase::Write) && r.done() is Ok
                        && e == EffectView::SetMode(config_file(), PRIVATE_MODE),
                })
                &&& (s is Save && !(s2 is Save) ==> r.done() is Ok && (s == StartView::Save(
                    SavePhase::Protect,
                ) || (s == StartView::Save(SavePhase::Write) && !self.host.unix)))
                &&& (s2 is Save ==> s is Save)
            },
    {
    }

    proof fn lemma_saved_past(self, i: int)
        requires
            0 <= i <= self.replies.len(),
        ensures
            self.saved_past(i),
        decreases i,
    {
        if i == 0 {
            self.lemma_begin();
        } else {
            self.lemma_saved_past(i - 1);
            self.lemma_stage(i - 1);
            if let StepView::Perform(s, e) = self.stage(i - 1) {
                let h = i - 1;
                let r = self.replies[h];
                self.lemma_save_effects(s, r);
                if let StepView::Perform(s2, e2) = self.stage(i) {
                    if s is Save && !(s2 is Save) {
                        if s == StartView::Save(SavePhase::Protect) {
                            assert(self.saved(h - 1));
                        } else {
                            assert(self.saved(h));
                        }
                    } else if !(s is Save) {
                        let k = choose|k: int| k < h && self.saved(k);
                        assert(k < i && self.saved(k));
                    }
                }
            }
        }
    }

    /// The `i`-th reply said that the server runs already.
    pub open spec fn found_running(self, i: int) -> bool {
        &&& 0 <= i < self.replies.len()
        &&& self.asks(i) == Some(EffectView::PollChild)
        &&& self.replies[i].child() == Ok::<ChildState, Text>(ChildState::Running)
    }

    /// The command is the one that serves.
    pub open spec fn serves(self, c: CommandView) -> bool {
        exists|nested: bool, path: Option<Text>|
            c == #[trigger] job_command(
                resource("node"@, nested),
                runtime(),
                self.config,
                path,
                self.host.unix,
                Job::Serve,
            )
    }

    /// The `i`-th effect found the mark of a finished setup in the runtime that is going to be
    /// served, or wrote it.
    pub open spec fn marked(self, i: int) -> bool {
        &&& 0 <= i < self.replies.len()
        &&& {
            ||| {
                &&& self.stage(i) == StepView::<StartView, ()>::Perform(
                    StartView::Probe,
                    EffectView::Exists(initialized_marker()),
                )
                &&& self.replies[i].answer() == Ok::<bool, Text>(true)
            }
            ||| {
                &&& self.stage(i) == StepView::<StartView, ()>::Perform(
                    StartView::Mark,
                    EffectView::WriteText(initialized_marker(), "ok"@),
                )
                &&& self.replies[i].done() is Ok
            }
        }
    }

    /// The `i`-th effect started the server.
    pub open spec fn spawned(self, i: int) -> bool {
        &&& 0 <= i < self.replies.len()
        &&& self.asks(i) matches Some(EffectView::Spawn(c)) && self.serves(c)
        &&& self.replies[i].done() is Ok
    }

    /// The `i`-th effect found the mark of the registration with `nb`, or wrote it.
    pub open spec fn nb_marked(self, i: int) -> bool {
        &&& 0 <= i < self.replies.len()
        &&& {
            ||| {
                &&& self.stage(i) == StepView::<StartView, ()>::Perform(
                    StartView::Register(RegisterView::Probe),
                    EffectView::Exists(nb_marker()),
                )
                &&& self.replies[i].answer() == Ok::<bool, Text>(true)
            }
            ||| {
                &&& self.stage(i) == StepView::<StartView, ()>::Perform(
                    StartView::Register(RegisterView::Mark),
                    EffectView::WriteText(nb_marker(), "ok"@),
                )
                &&& self.replies[i].done() is Ok
            }
        }
    }

    /// With the `i`-th reply, making sure of the runtime succeeded.
    pub open spec fn ensured_by(self, i: int) -> bool {
        &&& 0 <= i < self.replies.len()
        &&& self.stage(i) matches StepView::Perform(StartView::Ensure(p), _) && ensure_step(
            self.host,
            self.id,
            p,
            self.replies[i],
        ) == succeeds::<EnsurePhase, PathView>(runtime())
    }

    /// Before the `i`-th effect the runtime was in its place.
    pub open spec fn is_ensured(self, i: int) -> bool {
        exists|k: int| k < i && #[trigger] self.ensured_by(k)
    }

    /// Before the `i`-th effect the runtime was in its place, and NocoBase was known to be set up
    /// in it.
    pub open spec fn is_set_up(self, i: int) -> bool {
        exists|k: int| k < i && self.is_ensured(k) && #[trigger] self.marked(k)
    }

    /// Before the `i`-th effect NocoBase was known to be set up, and was found running then.
    pub open spec fn is_found_running(self, i: int) -> bool {
        exists|k: int| k < i && self.is_set_up(k) && #[trigger] self.found_running(k)
    }

    /// Before the `i`-th effect NocoBase was known to be set up, and the server was started then.
    pub open spec fn is_served(self, i: int) -> bool {
        exists|k: int| k < i && self.is_set_up(k) && #[trigger] self.spawned(k)
    }

    /// Before the `i`-th effect the server was started, and answered that it is ready.
    pub open spec fn is_answered(self, i: int) -> bool {
        exists|k: int| k < i && self.is_served(k) && #[trigger] self.answered(k)
    }

    /// Before the `i`-th effect the server was ready, and was known to `nb`.
    pub open spec fn is_registered(self, i: int) -> bool {
        exists|k: int| k < i && self.is_answered(k) && #[trigger] self.nb_marked(k)
    }

    /// What is known of the way to success.
    spec fn ready_past(self, i: int) -> bool {
        match self.stage(i) {
            StepView::Perform(s, e) => self.ready_in(i, s, e),
            StepView::Finished(Ok(_)) => self.is_found_running(i) || self.is_registered(i),
            StepView::Finished(Err(_)) => true,
        }
    }

    spec fn ready_in(self, i: int, s: StartView, e: EffectView) -> bool {
        &&& self.asks_in(s, e)
        &&& match s {
            StartView::Probe => self.is_ensured(i),
            StartView::Install(_) => self.is_ensured(i),
            StartView::Enable(_) => self.is_ensured(i),
            StartView::Mark => self.is_ensured(i),
            StartView::Lock => self.is_set_up(i),
            StartView::Poll => self.is_set_up(i),
            StartView::Serve(_) => self.is_set_up(i),
            StartView::Unlock => self.is_served(i),
            StartView::Wait(_) => self.is_served(i),
            StartView::Register(_) => self.is_answered(i),
            _ => true,
        }
    }

    /// The effect that is asked for in a phase on the way to success.
    spec fn asks_in(self, s: StartView, e: EffectView) -> bool {
        match s {
            StartView::Probe => e == EffectView::Exists(initialized_marker()),
            StartView::Mark => e == EffectView::WriteText(initialized_marker(), "ok"@),
            StartView::Poll => e == EffectView::PollChild,
            StartView::Serve(LaunchView::Execute) => e matches EffectView::Spawn(c) && self.serves(
                c,
            ),
            StartView::Wait(p) => p is Ask ==> e == EffectView::Request(language_request()),
            StartView::Register(RegisterView::Probe) => e == EffectView::Exists(nb_marker()),
            StartView::Register(RegisterView::Mark) => e == EffectView::WriteText(
                nb_marker(),
                "ok"@,
            ),
            _ => true,
        }
    }

    #[verifier::rlimit(60)]
    proof fn lemma_asks_in(self, s: StartView, r: ReplyView)
        ensures
            start_step(self.host, self.config, self.id, s, r) matches StepView::Perform(s2, e)
                ==> self.asks_in(s2, e),
    {
        if let StartView::Serve(LaunchView::OpenLog(nested, path)) = s {
            let c = job_command(
                resource("node"@, nested),
                runtime(),
                self.config,
                path,
                self.host.unix,
                Job::Serve,
            );
            assert(self.serves(c));
        }
    }

    /// From which phases, and by which replies, the next stretch of the way is reached.
    #[verifier::rlimit(60)]
    proof fn lemma_ready_effects(self, s: StartView, r: ReplyView)
        ensures
            match start_step(self.host, self.config, self.id, s, r) {
                StepView::Perform(s2, _) => {
                    &&& (s2 is Probe ==> (s matches StartView::Ensure(p) && ensure_step(
                        self.host,
                        self.id,
                        p,
                        r,
                    ) == succeeds::<EnsurePhase, PathView>(runtime())))
                    &&& (s2 is Install ==> s is Probe || s is Install)
                    &&& (s2 is Enable ==> s is Install || s is Enable)
                    &&& (s2 is Mark ==> s is Enable)
                    &&& (s2 is Lock ==> (s is Probe && r.answer() == Ok::<bool, Text>(true)) || (
                    s is Mark && r.done() is Ok))
                    &&& (s2 is Poll ==> s is Lock)
                    &&& (s2 is Serve ==> s is Poll || s is Serve)
                    &&& (s2 is Unlock ==> s == StartView::Serve(LaunchView::Execute) && r.done()
                        is Ok)
                    &&& (s2 is Wait ==> s is Unlock || s is Wait)
                    &&& (s2 is Register ==> s is Register || (s matches StartView::Wait(p)
                        && p is Ask && (r.text() matches Ok(t) && is_ready_response(t))))
                },
                StepView::Finished(Ok(_)) => {
                    ||| s is Poll && r.child() == Ok::<ChildState, Text>(ChildState::Running)
                    ||| s == StartView::Register(RegisterView::Probe) && r.answer() == Ok::<
                        bool,
                        Text,
                    >(true)
                    ||| s == StartView::Register(RegisterView::Mark) && r.done() is Ok
                },
                StepView::Finished(Err(_)) => true,
            },
    {
    }

    /// What was known before is known one reply later.
    proof fn lemma_still_known(self, h: int)
        ensures
            self.is_ensured(h) ==> self.is_ensured(h + 1),
            self.is_set_up(h) ==> self.is_set_up(h + 1),
            self.is_found_running(h) ==> self.is_found_running(h + 1),
            self.is_served(h) ==> self.is_served(h + 1),
            self.is_answered(h) ==> self.is_answered(h + 1),
            self.is_registered(h) ==> self.is_registered(h + 1),
    {
        if self.is_ensured(h) {
            let k = choose|k: int| k < h && #[trigger] self.ensured_by(k);
            assert(k < h + 1 && self.ensured_by(k));
        }
        if self.is_set_up(h) {
            let k = choose|k: int| k < h && self.is_ensured(k) && #[trigger] self.marked(k);
            assert(k < h + 1 && self.is_ensured(k) && self.marked(k));
        }
        if self.is_found_running(h) {
            let k = choose|k: int| k < h && self.is_set_up(k) && #[trigger] self.found_running(k);
            assert(k < h + 1 && self.is_set_up(k) && self.found_running(k));
        }
        if self.is_served(h) {
            let k = choose|k: int| k < h && self.is_set_up(k) && #[trigger] self.spawned(k);
            assert(k < h + 1 && self.is_set_up(k) && self.spawned(k));
        }
        if self.is_answered(h) {
            let k = choose|k: int| k < h && self.is_served(k) && #[trigger] self.answered(k);
            assert(k < h + 1 && self.is_served(k) && self.answered(k));
        }
        if self.is_registered(h) {
            let k = choose|k: int| k < h && self.is_answered(k) && #[trigger] self.nb_marked(k);
            assert(k < h + 1 && self.is_answered(k) && self.nb_marked(k));
        }
    }

    proof fn lemma_ready_past(self, i: int)
        requires
            0 <= i <= self.replies.len(),
        ensures
            self.ready_past(i),
        decreases i,
    {
        if i == 0 {
            self.lemma_begin();
        } else {
            let h = i - 1;
            self.lemma_ready_past(h);
            self.lemma_stage(h);
            self.lemma_still_known(h);
            if let StepView::Perform(s, e) = self.stage(h) {
                let r = self.replies[h];
                self.lemma_asks_in(s, r);
                self.lemma_ready_effects(s, r);
                match s {
                    StartView::Ensure(p) => {
                        assert(ensure_step(self.host, self.id, p, r) == succeeds::<
                            EnsurePhase,
                            PathView,
                        >(runtime()) ==> self.ensured_by(h));
                    },
                    StartView::Probe => {
                        assert(r.answer() == Ok::<bool, Text>(true) ==> self.marked(h));
                    },
                    StartView::Mark => {
                        assert(r.done() is Ok ==> self.marked(h));
                    },
                    StartView::Poll => {
                        assert(r.child() == Ok::<ChildState, Text>(ChildState::Running)
                            ==> self.found_running(h));
                    },
                    StartView::Serve(p) => {
                        assert(p is Execute && r.done() is Ok ==> self.spawned(h));
                    },
                    StartView::Wait(p) => {
                        if p is Ask && (r.text() matches Ok(t) && is_ready_response(t)) {
                            assert(self.answered(h));
                        }
                    },
                    StartView::Register(p) => {
                        assert(p is Probe && r.answer() == Ok::<bool, Text>(true)
                            ==> self.nb_marked(h));
                        assert(p is Mark && r.done() is Ok ==> self.nb_marked(h));
                    },
                    _ => {},
                }
            }
        }
    }
}

/// A run starts at most one server.
pub proof fn law_one_server_per_run(start: StartRun, i: int, j: int)
    requires
        0 <= i < j <= start.replies.len(),
        start.asks(i) matches Some(EffectView::Spawn(_)),
    ensures
        !(start.asks(j) is Some && start.asks(j)->0 is Spawn),
{
    start.lemma_past(i);
    start.lemma_past(j);
    start.lemma_rank_falls(i, j);
}

impl StartRun {
    proof fn lemma_rank_falls(self, i: int, j: int)
        requires
            0 <= i < j <= self.replies.len(),
            self.stage(i) is Perform,
        ensures
            self.stage(j) matches StepView::Perform(s, _) ==> start_rank(s) < start_rank(
                self.stage(i)->Perform_0,
            ),
        decreases j - i,
    {
        if i + 1 < j {
            self.lemma_rank_falls(i, j - 1);
        }
        self.lemma_stage(j - 1);
        if let StepView::Perform(s, _) = self.stage(j - 1) {
            lemma_start_descends(self.host, self.config, self.id, s, self.replies[j - 1]);
        }
    }
}

/// NocoBase is set up only where its mark is missing, and marked as set up only when both
/// commands of the setup have succeeded.
pub proof fn law_setup_precedes_its_mark(start: StartRun, i: int)
    requires
        0 <= i <= start.replies.len(),
    ensures
        start.stage(i) matches StepView::Perform(s, _) ==> {
            &&& (s is Install || s is Enable || s is Mark ==> start.unmarked_before(i))
            &&& (s is Mark ==> start.set_up_before(i))
        },
{
    start.lemma_setup_past(i);
}

/// Nothing but saving happens before the configuration is in its file, readable by its owner
/// alone where files have modes.
pub proof fn law_configuration_is_saved_first(start: StartRun, i: int)
    requires
        0 <= i <= start.replies.len(),
        start.stage(i) matches StepView::Perform(s, _) && !(s is Save),
    ensures
        exists|k: int| k < i && start.saved(k),
{
    start.lemma_saved_past(i);
}

impl StartRun {
    /// Where saving the configuration, taken by itself, stands after `i` replies.
    pub open spec fn saving(self, i: int) -> StepView<SavePhase, ()> {
        run(save_rule(self.host, self.config), save_first(self.host), self.replies.take(i))
    }

    /// The effect belongs to saving the configuration.
    pub open spec fn is_of_saving(self, e: EffectView) -> bool {
        match e {
            EffectView::CreateDirs(p) => p == data_dir(),
            EffectView::EncodeConfig(c) => c == self.config,
            EffectView::WriteBytes(p, _) => p == config_file(),
            EffectView::SetMode(p, m) => p == config_file() && m == PRIVATE_MODE,
            _ => false,
        }
    }

    /// Starting begins as saving does, and ends with it where saving fails.
    proof fn lemma_saving(self, j: int)
        requires
            0 <= j <= self.replies.len(),
        ensures
            match self.saving(j) {
                StepView::Perform(p, e) => self.stage(j) == StepView::<StartView, ()>::Perform(
                    StartView::Save(p),
                    e,
                ) && self.is_of_saving(e),
                StepView::Finished(Err(m)) => self.stage(j) == StepView::<StartView, ()>::Finished(
                    Err(m),
                ),
                StepView::Finished(Ok(_)) => exists|k: int| k < j && self.saved(k),
            },
        decreases j,
    {
        let next = save_rule(self.host, self.config);
        let first = save_first(self.host);
        if j == 0 {
            self.lemma_begin();
            assert(self.saving(0) == first);
        } else {
            let h = j - 1;
            self.lemma_saving(h);
            self.lemma_saved_past(h);
            self.lemma_stage(h);
            lemma_run_step(next, first, self.replies, h);
            match self.saving(h) {
                StepView::Perform(p, e) => {
                    let r = self.replies[h];
                    assert(self.saving(j) == save_step(self.host, self.config, p, r));
                    assert(self.stage(j) == start_save(self.host, self.saving(j)));
                    if self.saving(j) matches StepView::Finished(Ok(_)) {
                        if p is Protect {
                            assert(self.saved(h - 1));
                        } else {
                            assert(self.saved(h));
                        }
                    }
                },
                StepView::Finished(Ok(_)) => {
                    let k = choose|k: int| k < h && self.saved(k);
                    assert(k < j && self.saved(k));
                },
                StepView::Finished(Err(_)) => {},
            }
        }
    }
}

/// Where saving the configuration fails, starting fails with the same message, and nothing but
/// saving has been asked for: no runtime has been unpacked, nothing has been run, and the child
/// has not been touched.
pub proof fn law_failed_save_ends_starting(start: StartRun, j: int, m: Text, i: int)
    requires
        0 <= j <= start.replies.len(),
        start.saving(j) == StepView::<SavePhase, ()>::Finished(Err(m)),
        0 <= i <= start.replies.len(),
    ensures
        start.stage(start.replies.len() as int) == StepView::<StartView, ()>::Finished(Err(m)),
        start.asks(i) matches Some(e) ==> start.is_of_saving(e) && asked(start.saving(i)) == Some(
            e,
        ),
{
    let n = start.replies.len() as int;
    let next = save_rule(start.host, start.config);
    let first = save_first(start.host);
    lemma_run_prefix(next, first, start.replies, j);
    lemma_run_prefix(next, first, start.replies, i);
    assert(start.replies.take(n) =~= start.replies);
    start.lemma_saving(n);
    start.lemma_saving(i);
}

/// The effect leaves the file of the configuration where it is, with what it holds. Its
/// permissions may be made private.
pub open spec fn spares_configuration(e: EffectView) -> bool {
    match e {
        EffectView::RemoveTree(p) => !config_file().within(p),
        EffectView::Rename(a, b) => !config_file().within(a) && !config_file().within(b),
        EffectView::WriteText(p, _) => p != config_file(),
        EffectView::WriteBytes(p, _) => p != config_file(),
        EffectView::SetMode(p, m) => p != config_file() || m == PRIVATE_MODE,
        EffectView::Unpack(_, p) => !config_file().within(p),
        EffectView::OpenLog(p) => p != config_file(),
        _ => true,
    }
}

impl StartRun {
    #[verifier::rlimit(60)]
    proof fn lemma_spares(self, s: StartView, r: ReplyView)
        ensures
            start_step(self.host, self.config, self.id, s, r) matches StepView::Perform(s2, e) ==> {
                &&& (e is WriteBytes ==> s2 == StartView::Save(SavePhase::Write))
                &&& (!(s2 is Save) || s2 == StartView::Save(SavePhase::Protect)
                    ==> spares_configuration(e))
            },
    {
        law_other_files_lie_apart(self.id);
        assert(config_file().parts.len() == 2);
        assert(storage().parts.len() == 3);
        assert(log_file().parts.len() == 3);
        assert(launcher_file().parts.len() == 3);
        assert(initialized_marker().parts.len() == 3);
        assert(nb_marker().parts.len() == 3);
        assert(ready_marker().parts.len() == 3);
    }

    /// Nothing else touches the file of the configuration: not the programs that are run, nor
    /// anyone while the procedure waits for what is not about files.
    pub open spec fn undisturbed(self, disks: Seq<Disk>) -> bool {
        forall|i: int|
            0 <= i < self.replies.len() ==> (#[trigger] self.asks(i) matches Some(e) ==> (
            is_about_files(e) || same_at(disks[i], config_file(), disks[i + 1], config_file())))
    }

    /// The configuration can be decoded from what it has been encoded as.
    pub open spec fn can_be_decoded(
        self,
        decode: spec_fn(Seq<u8>) -> Result<ConfigView, Text>,
    ) -> bool {
        forall|i: int|
            0 <= i < self.replies.len() && #[trigger] self.asks(i) == Some(
                EffectView::EncodeConfig(self.config),
            ) ==> (self.replies[i].bytes() matches Ok(b) ==> decode(b) == Ok::<ConfigView, Text>(
                self.config,
            ))
    }

    /// The bytes that were written stay in the file.
    proof fn lemma_bytes_stay(self, disks: Seq<Disk>, k: int, i: int)
        requires
            runs_on_disk(self.rule(), start_first(self.host), self.replies, disks),
            self.undisturbed(disks),
            self.saved(k),
            k < i <= self.replies.len(),
        ensures
            disks[i].contains_key(config_file()),
            disks[i][config_file()] == Node::File(self.replies[k - 1].bytes()->Ok_0),
        decreases i,
    {
        let h = i - 1;
        assert(run(self.rule(), start_first(self.host), self.replies.take(h)) is Perform);
        let e = self.asks(h)->0;
        assert(self.asks(h) == Some(e));
        assert(performs(e, disks[h], self.replies[h], disks[h + 1]));
        if h > k {
            self.lemma_bytes_stay(disks, k, h);
            law_saved_configuration_is_spared(self, k, h);
            if is_about_files(e) {
                assert(same_at(disks[h], config_file(), disks[i], config_file()));
            }
        }
    }
}

/// Once the configuration is in its file, no later effect of the run writes, moves or removes
/// that file.
pub proof fn law_saved_configuration_is_spared(start: StartRun, k: int, i: int)
    requires
        start.saved(k),
        k < i <= start.replies.len(),
    ensures
        start.asks(i) matches Some(e) ==> spares_configuration(e),
{
    start.lemma_begin();
    start.lemma_stage(k - 1);
    if let StepView::Perform(s, _) = start.stage(k - 1) {
        start.lemma_spares(s, start.replies[k - 1]);
    }
    start.lemma_rank_falls(k, i);
    start.lemma_stage(i - 1);
    if let StepView::Perform(s, _) = start.stage(i - 1) {
        start.lemma_spares(s, start.replies[i - 1]);
    }
}

/// Where saving the configuration succeeds, the configuration can be loaded at every later moment
/// and after every end of starting, whether starting succeeds or fails: what is then read from
/// the file decodes to it.
pub proof fn law_started_configuration_can_be_loaded(
    start: StartRun,
    disks: Seq<Disk>,
    j: int,
    decode: spec_fn(Seq<u8>) -> Result<ConfigView, Text>,
    fresh: ConfigView,
    found: ReplyView,
    read: ReplyView,
    d1: Disk,
    d2: Disk,
)
    requires
        runs_on_disk(start.rule(), start_first(start.host), start.replies, disks),
        start.undisturbed(disks),
        0 <= j <= start.replies.len(),
        start.saving(j) == succeeds::<SavePhase, ()>(()),
        start.can_be_decoded(decode),
        performs(EffectView::Exists(config_file()), disks.last(), found, d1),
        performs(EffectView::ReadBytes(config_file()), d1, read, d2),
        read matches ReplyView::Bytes(Ok(_)),
    ensures
        run(
            |s: LoadPhase, r: ReplyView| load_step(s, r, fresh),
            load_first(start.host),
            seq![found, read, ReplyView::Config(decode(read.bytes()->Ok_0))],
        ) == succeeds::<LoadPhase, ConfigView>(start.config),
{
    start.lemma_saving(j);
    let k = choose|k: int| k < j && start.saved(k);
    start.lemma_bytes_stay(disks, k, start.replies.len() as int);
    assert(start.asks(k - 1) == Some(EffectView::EncodeConfig(start.config)));
    if !start.host.home_found {
        lemma_ended(start.rule(), start_first(start.host), start.replies.take(k));
    }
    lemma_load(start.host, fresh, found, read, decode(read.bytes()->Ok_0));
}

/// Loading a file that is there and can be read ends with what it decodes to.
proof fn lemma_load(
    host: HostView,
    fresh: ConfigView,
    found: ReplyView,
    read: ReplyView,
    decoded: Result<ConfigView, Text>,
)
    requires
        host.home_found,
        found == ReplyView::Answer(true),
        read matches ReplyView::Bytes(Ok(_)),
    ensures
        run(
            |s: LoadPhase, r: ReplyView| load_step(s, r, fresh),
            load_first(host),
            seq![found, read, ReplyView::Config(decoded)],
        ) == StepView::<LoadPhase, ConfigView>::Finished(decoded),
{
    let next = |s: LoadPhase, r: ReplyView| load_step(s, r, fresh);
    let all = seq![found, read, ReplyView::Config(decoded)];
    lemma_run_step(next, load_first(host), all, 0);
    lemma_run_step(next, load_first(host), all, 1);
    lemma_run_step(next, load_first(host), all, 2);
    assert(run(next, load_first(host), all.take(0)) == load_first(host));
    assert(all.take(3) =~= all);
}

/// NocoBase is looked at, set up and started only in a runtime that is in its place: the mark of
/// the setup is looked for only when making sure of the runtime has just succeeded.
pub proof fn law_runtime_precedes_the_setup(
    host: HostView,
    config: ConfigView,
    id: Text,
    phase: StartView,
    r: ReplyView,
)
    ensures
        !(start_first(host) matches StepView::Perform(StartView::Probe, _)),
        start_step(host, config, id, phase, r) matches StepView::Perform(StartView::Probe, e) ==> {
            &&& e == EffectView::Exists(initialized_marker())
            &&& phase matches StartView::Ensure(p) && ensure_step(host, id, p, r) == succeeds::<
                EnsurePhase,
                PathView,
            >(runtime())
        },
{
    let start = StartRun { host, config, id, replies: Seq::empty() };
    start.lemma_ready_effects(phase, r);
    start.lemma_asks_in(phase, r);
}

impl StartRun {
    /// Where making sure of the runtime stands after the `j`-th reply, where saving had ended
    /// after the `a`-th.
    pub open spec fn ensuring(self, a: int, j: int) -> EnsureView {
        ensured(self.host, self.id, self.replies.subrange(a, j))
    }

    /// Saving ended with success after exactly `a` replies.
    pub open spec fn saved_after(self, a: int) -> bool {
        &&& 0 < a <= self.replies.len()
        &&& self.saving(a - 1) is Perform
        &&& self.saving(a) == succeeds::<SavePhase, ()>(())
    }
}

/// Starting goes on from a saved configuration as making sure of the runtime does, step by step,
/// and fails with it.
pub proof fn law_starting_makes_sure_of_the_runtime(start: StartRun, a: int, j: int)
    requires
        start.saved_after(a),
        a <= j <= start.replies.len(),
    ensures
        match start.ensuring(a, j) {
            StepView::Perform(p, e) => start.stage(j) == StepView::<StartView, ()>::Perform(
                StartView::Ensure(p),
                e,
            ),
            StepView::Finished(Err(m)) => start.stage(j) == StepView::<StartView, ()>::Finished(
                Err(m),
            ),
            StepView::Finished(Ok(_)) => start.is_ensured(j),
        },
    decreases j,
{
    let h = j - 1;
    start.lemma_stage(h);
    if j == a {
        start.lemma_saving(h);
        lemma_run_step(
            save_rule(start.host, start.config),
            save_first(start.host),
            start.replies,
            h,
        );
        if let StepView::Perform(p, _) = start.saving(h) {
            assert(start.stage(a) == start_save(
                start.host,
                save_step(start.host, start.config, p, start.replies[h]),
            ));
        }
        assert(start.ensuring(a, a) == ensure_first(start.host));
    } else {
        law_starting_makes_sure_of_the_runtime(start, a, h);
        start.lemma_still_known(h);
        assert(start.replies.subrange(a, j).drop_last() =~= start.replies.subrange(a, h));
        if let StepView::Perform(p, _) = start.ensuring(a, h) {
            let r = start.replies[h];
            let step = ensure_step(start.host, start.id, p, r);
            assert(start.ensuring(a, j) == step);
            assert(start.stage(j) == start_ensure(step));
            if step matches StepView::Finished(Ok(_)) {
                assert(step == succeeds::<EnsurePhase, PathView>(runtime()));
                assert(start.ensured_by(h));
            }
        }
    }
}

/// What is proved of making sure of the runtime on a disk holds of it within starting: the
/// replies and the disks of that part of the run are a run of it.
pub proof fn law_starting_replaces_on_disk(start: StartRun, disks: Seq<Disk>, a: int, j: int)
    requires
        runs_on_disk(start.rule(), start_first(start.host), start.replies, disks),
        start.saved_after(a),
        a <= j <= start.replies.len(),
        j > a ==> start.ensuring(a, j - 1) is Perform,
    ensures
        runs_on_disk(
            ensure_rule(start.host, start.id),
            ensure_first(start.host),
            start.replies.subrange(a, j),
            disks.subrange(a, j + 1),
        ),
{
    let part = start.replies.subrange(a, j);
    let next = ensure_rule(start.host, start.id);
    let first = ensure_first(start.host);
    assert forall|i: int| 0 <= i < part.len() implies (run(
        next,
        first,
        #[trigger] part.take(i),
    ) matches StepView::Perform(_, e) && performs(
        e,
        disks.subrange(a, j + 1)[i],
        part[i],
        disks.subrange(a, j + 1)[i + 1],
    )) by {
        let before = start.replies.subrange(a, j - 1);
        assert(part.take(i) =~= start.replies.subrange(a, a + i));
        assert(before.take(i) =~= part.take(i));
        lemma_run_prefix(next, first, before, i);
        law_starting_makes_sure_of_the_runtime(start, a, a + i);
        assert(run(start.rule(), start_first(start.host), start.replies.take(a + i)) is Perform);
    }
}

/// Starting succeeds only when the runtime was in its place, NocoBase was then known to be set up
/// in it, and after that the server has been found running; or was started, then answered that
/// its data sources are loaded, and then was known to `nb`.
pub proof fn law_success_means_ready(start: StartRun)
    requires
        start.stage(start.replies.len() as int) matches StepView::Finished(Ok(_)),
    ensures
        start.is_found_running(start.replies.len() as int) || start.is_registered(
            start.replies.len() as int,
        ),
{
    start.lemma_ready_past(start.replies.len() as int);
}

/// Starting fails only with a message that has a cause: the one of the reply that came last,
/// the one that names a directory which is not known, or the one of a command or a server
/// that did not do its work.
#[verifier::rlimit(60)]
pub proof fn law_start_fails_with_a_cause(
    host: HostView,
    config: ConfigView,
    id: Text,
    phase: StartView,
    r: ReplyView,
    m: Text,
)
    requires
        start_step(host, config, id, phase, r) == StepView::<StartView, ()>::Finished(Err(m)),
    ensures
        ({
            ||| r.done() == Err::<(), Text>(m)
            ||| r.answer() == Err::<bool, Text>(m)
            ||| r.text() == Err::<Text, Text>(m)
            ||| r.bytes() == Err::<Seq<u8>, Text>(m)
            ||| r.status() == Err::<bool, Text>(m)
            ||| r.child() == Err::<ChildState, Text>(m)
            ||| host.resources == Err::<(), Text>(m)
            ||| !host.home_found && m == home_unknown()
            ||| r.status() == Ok::<bool, Text>(false) && (m == Job::Install.failure() || m
                == Job::EnablePlugin.failure() || m == Job::Register.failure())
            ||| m == never_ready() && phase is Wait
        }),
{
}

} // verus!
