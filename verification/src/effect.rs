//! What the procedures ask of the outside world, and what it answers.
//!
//! A procedure never touches the world itself. It hands out an `Effect`, waits for the
//! `Reply`, and goes on from there: every decision lies in the step from one reply to the
//! next effect.
use vstd::prelude::*;

use crate::command::{CommandView, NodeCommand, OutputView, ProcessOutput};
use crate::config::{ConfigView, DatabaseConfig};
use crate::path::{FilePath, PathView};
use crate::text::{option_view, result_view, texts, Text};

verus! {

/// Whether a child process is there and still runs.
#[derive(Clone, Copy, Debug, PartialEq, Eq, Structural)]
pub enum ChildState {
    /// No process has been started, or it has been forgotten.
    Absent,
    Running,
    Exited,
}

/// Who receives a signal.
#[derive(Clone, Copy, Debug, PartialEq, Eq, Structural)]
pub enum Target {
    /// The child process alone.
    Child,
    /// Every process of the group that the child leads.
    Group,
}

/// A signal that ends processes.
#[derive(Clone, Copy, Debug, PartialEq, Eq, Structural)]
pub enum Signal {
    /// Ask to end.
    Terminate,
    /// End at once.
    Kill,
}

/// A request over HTTP to the local server.
#[derive(Debug, PartialEq, Eq)]
pub struct HttpProbe {
    pub port: u16,
    pub connect_millis: u64,
    pub read_millis: u64,
    pub request: String,
}

/// The mathematical model of an `HttpProbe`.
pub struct ProbeView {
    pub port: u16,
    pub connect_millis: u64,
    pub read_millis: u64,
    pub request: Text,
}

impl View for HttpProbe {
    type V = ProbeView;

    open spec fn view(&self) -> ProbeView {
        ProbeView {
            port: self.port,
            connect_millis: self.connect_millis,
            read_millis: self.read_millis,
            request: self.request@,
        }
    }
}

/// A window that shows a page of the local server.
#[derive(Debug, PartialEq, Eq)]
pub struct PageWindow {
    pub label: String,
    pub title: String,
    pub url: String,
    pub width: u32,
    pub height: u32,
    /// The script that runs in every page when it has loaded.
    pub page_script: String,
}

/// The mathematical model of a `PageWindow`.
pub struct WindowView {
    pub label: Text,
    pub title: Text,
    pub url: Text,
    pub width: u32,
    pub height: u32,
    pub page_script: Text,
}

impl View for PageWindow {
    type V = WindowView;

    open spec fn view(&self) -> WindowView {
        WindowView {
            label: self.label@,
            title: self.title@,
            url: self.url@,
            width: self.width,
            height: self.height,
            page_script: self.page_script@,
        }
    }
}

/// What a procedure asks for. Behind each stands the reply that fits it.
#[derive(Debug, PartialEq, Eq)]
pub enum Effect {
    /// Is there anything at the path? `Answer`
    Exists(FilePath),
    /// The content of a file as text. `Text`
    ReadText(FilePath),
    /// The content of a file. `Bytes`
    ReadBytes(FilePath),
    /// Create the directory and those above it, where they are missing. `Done`
    CreateDirs(FilePath),
    /// Remove the directory with all that lies in it. `Done`
    RemoveTree(FilePath),
    /// Move what lies at the first path to the second. `Done`
    Rename(FilePath, FilePath),
    /// Let the file hold exactly the text. `Done`
    WriteText(FilePath, String),
    /// Let the file hold exactly the bytes. `Done`
    WriteBytes(FilePath, Vec<u8>),
    /// Set the permissions of the file. `Done`
    SetMode(FilePath, u32),
    /// Unpack the compressed archive at the first path into the directory at the second.
    /// `Done`
    Unpack(FilePath, FilePath),
    /// The configuration as the bytes of its file. `Bytes`
    EncodeConfig(DatabaseConfig),
    /// The configuration that the bytes of a file hold. `Config`
    DecodeConfig(Vec<u8>),
    /// Open the log for appending and keep it for the next command. `Done`
    OpenLog(FilePath),
    /// Run a program to its end and collect its output. `Output`
    Capture(String, Vec<String>),
    /// Run a command to its end, with its output in the open log: did it succeed? `Status`
    Run(NodeCommand),
    /// Start a command, with its output in the open log, and keep it as the child. `Done`
    Spawn(NodeCommand),
    /// Does the local port accept a connection within so many milliseconds? `Answer`
    Connect(u16, u64),
    /// The whole response to a request. `Text`
    Request(HttpProbe),
    /// Wait for so many milliseconds. Any reply.
    Sleep(u64),
    /// Take the lock on the child, and keep it until it is given back or the procedure
    /// ends. `Done`
    LockChild,
    /// Give the lock on the child back. Any reply.
    UnlockChild,
    /// How is the child? `Child`
    PollChild,
    /// Forget the child without ending it. Any reply.
    ForgetChild,
    /// Take the child out of its place: was there one? `Answer`
    TakeChild,
    /// Send a signal; whether it arrives does not matter. Any reply.
    SendSignal(Target, Signal),
    /// How is the child that was taken? `Child`
    PollTaken,
    /// End the child that was taken. `Done`
    KillTaken,
    /// Wait for the end of the child that was taken. `Done`
    WaitTaken,
    /// The path as a reader sees it. `Text`
    Display(FilePath),
    /// Is there a window with this label? `Answer`
    FindWindow(String),
    /// Let the window with the first text as its label show the second, an address. `Done`
    Navigate(String, String),
    /// Bring the window to the front. `Done`
    FocusWindow(String),
    /// Open a new window. `Done`
    OpenWindow(PageWindow),
    /// End the application with this exit code. Any reply.
    Exit(i32),
}

/// The mathematical model of an `Effect`.
pub enum EffectView {
    Exists(PathView),
    ReadText(PathView),
    ReadBytes(PathView),
    CreateDirs(PathView),
    RemoveTree(PathView),
    Rename(PathView, PathView),
    WriteText(PathView, Text),
    WriteBytes(PathView, Seq<u8>),
    SetMode(PathView, u32),
    Unpack(PathView, PathView),
    EncodeConfig(ConfigView),
    DecodeConfig(Seq<u8>),
    OpenLog(PathView),
    Capture(Text, Seq<Text>),
    Run(CommandView),
    Spawn(CommandView),
    Connect(u16, u64),
    Request(ProbeView),
    Sleep(u64),
    LockChild,
    UnlockChild,
    PollChild,
    ForgetChild,
    TakeChild,
    SendSignal(Target, Signal),
    PollTaken,
    KillTaken,
    WaitTaken,
    Display(PathView),
    FindWindow(Text),
    Navigate(Text, Text),
    FocusWindow(Text),
    OpenWindow(WindowView),
    Exit(i32),
}

impl View for Effect {
    type V = EffectView;

    open spec fn view(&self) -> EffectView {
        match self {
            Effect::Exists(p) => EffectView::Exists(p@),
            Effect::ReadText(p) => EffectView::ReadText(p@),
            Effect::ReadBytes(p) => EffectView::ReadBytes(p@),
            Effect::CreateDirs(p) => EffectView::CreateDirs(p@),
            Effect::RemoveTree(p) => EffectView::RemoveTree(p@),
            Effect::Rename(a, b) => EffectView::Rename(a@, b@),
            Effect::WriteText(p, t) => EffectView::WriteText(p@, t@),
            Effect::WriteBytes(p, b) => EffectView::WriteBytes(p@, b@),
            Effect::SetMode(p, m) => EffectView::SetMode(p@, *m),
            Effect::Unpack(a, p) => EffectView::Unpack(a@, p@),
            Effect::EncodeConfig(c) => EffectView::EncodeConfig(c@),
            Effect::DecodeConfig(b) => EffectView::DecodeConfig(b@),
            Effect::OpenLog(p) => EffectView::OpenLog(p@),
            Effect::Capture(p, a) => EffectView::Capture(p@, texts(a@)),
            Effect::Run(c) => EffectView::Run(c@),
            Effect::Spawn(c) => EffectView::Spawn(c@),
            Effect::Connect(p, m) => EffectView::Connect(*p, *m),
            Effect::Request(q) => EffectView::Request(q@),
            Effect::Sleep(m) => EffectView::Sleep(*m),
            Effect::LockChild => EffectView::LockChild,
            Effect::UnlockChild => EffectView::UnlockChild,
            Effect::PollChild => EffectView::PollChild,
            Effect::ForgetChild => EffectView::ForgetChild,
            Effect::TakeChild => EffectView::TakeChild,
            Effect::SendSignal(t, s) => EffectView::SendSignal(*t, *s),
            Effect::PollTaken => EffectView::PollTaken,
            Effect::KillTaken => EffectView::KillTaken,
            Effect::WaitTaken => EffectView::WaitTaken,
            Effect::Display(p) => EffectView::Display(p@),
            Effect::FindWindow(l) => EffectView::FindWindow(l@),
            Effect::Navigate(l, u) => EffectView::Navigate(l@, u@),
            Effect::FocusWindow(l) => EffectView::FocusWindow(l@),
            Effect::OpenWindow(w) => EffectView::OpenWindow(w@),
            Effect::Exit(n) => EffectView::Exit(*n),
        }
    }
}

/// What the outside world answers. An `Err` holds the message of the failure.
#[derive(Debug, PartialEq, Eq)]
pub enum Reply {
    Done(Result<(), String>),
    Answer(bool),
    Text(Result<String, String>),
    Bytes(Result<Vec<u8>, String>),
    Config(Result<DatabaseConfig, String>),
    Output(Option<ProcessOutput>),
    Status(Result<bool, String>),
    Child(Result<ChildState, String>),
}

/// The mathematical model of a `Reply`.
pub enum ReplyView {
    Done(Result<(), Text>),
    Answer(bool),
    Text(Result<Text, Text>),
    Bytes(Result<Seq<u8>, Text>),
    Config(Result<ConfigView, Text>),
    Output(Option<OutputView>),
    Status(Result<bool, Text>),
    Child(Result<ChildState, Text>),
}

impl View for ChildState {
    type V = ChildState;

    open spec fn view(&self) -> ChildState {
        *self
    }
}

impl View for Reply {
    type V = ReplyView;

    open spec fn view(&self) -> ReplyView {
        match self {
            Reply::Done(r) => ReplyView::Done(result_view(*r)),
            Reply::Answer(b) => ReplyView::Answer(*b),
            Reply::Text(r) => ReplyView::Text(result_view(*r)),
            Reply::Bytes(r) => ReplyView::Bytes(result_view(*r)),
            Reply::Config(r) => ReplyView::Config(result_view(*r)),
            Reply::Output(o) => ReplyView::Output(option_view(*o)),
            Reply::Status(r) => ReplyView::Status(result_view(*r)),
            Reply::Child(r) => ReplyView::Child(result_view(*r)),
        }
    }
}

/// The message where a reply of the wrong kind came back.
pub open spec fn misfit() -> Text {
    "the reply does not fit the request"@
}

impl ReplyView {
    pub open spec fn done(self) -> Result<(), Text> {
        match self {
            ReplyView::Done(r) => r,
            _ => Err(misfit()),
        }
    }

    pub open spec fn answer(self) -> Result<bool, Text> {
        match self {
            ReplyView::Answer(b) => Ok(b),
            _ => Err(misfit()),
        }
    }

    pub open spec fn text(self) -> Result<Text, Text> {
        match self {
            ReplyView::Text(r) => r,
            _ => Err(misfit()),
        }
    }

    pub open spec fn bytes(self) -> Result<Seq<u8>, Text> {
        match self {
            ReplyView::Bytes(r) => r,
            _ => Err(misfit()),
        }
    }

    pub open spec fn config(self) -> Result<ConfigView, Text> {
        match self {
            ReplyView::Config(r) => r,
            _ => Err(misfit()),
        }
    }

    /// A program that could not be run has no output.
    pub open spec fn output(self) -> Option<OutputView> {
        match self {
            ReplyView::Output(o) => o,
            _ => None,
        }
    }

    pub open spec fn status(self) -> Result<bool, Text> {
        match self {
            ReplyView::Status(r) => r,
            _ => Err(misfit()),
        }
    }

    pub open spec fn child(self) -> Result<ChildState, Text> {
        match self {
            ReplyView::Child(r) => r,
            _ => Err(misfit()),
        }
    }
}

fn misfit_text() -> (r: String)
    ensures
        r@ == misfit(),
{
    "the reply does not fit the request".to_owned()
}

impl Reply {
    pub fn done(self) -> (r: Result<(), String>)
        ensures
            result_view(r) == self@.done(),
    {
        match self {
            Reply::Done(r) => r,
            _ => Err(misfit_text()),
        }
    }

    pub fn answer(self) -> (r: Result<bool, String>)
        ensures
            result_view(r) == self@.answer(),
    {
        match self {
            Reply::Answer(b) => Ok(b),
            _ => Err(misfit_text()),
        }
    }

    pub fn text(self) -> (r: Result<String, String>)
        ensures
            result_view(r) == self@.text(),
    {
        match self {
            Reply::Text(r) => r,
            _ => Err(misfit_text()),
        }
    }

    pub fn bytes(self) -> (r: Result<Vec<u8>, String>)
        ensures
            result_view(r) == self@.bytes(),
    {
        match self {
            Reply::Bytes(r) => r,
            _ => Err(misfit_text()),
        }
    }

    pub fn config(self) -> (r: Result<DatabaseConfig, String>)
        ensures
            result_view(r) == self@.config(),
    {
        match self {
            Reply::Config(r) => r,
            _ => Err(misfit_text()),
        }
    }

    pub fn output(self) -> (r: Option<ProcessOutput>)
        ensures
            option_view(r) == self@.output(),
    {
        match self {
            Reply::Output(o) => o,
            _ => None,
        }
    }

    pub fn status(self) -> (r: Result<bool, String>)
        ensures
            result_view(r) == self@.status(),
    {
        match self {
            Reply::Status(r) => r,
            _ => Err(misfit_text()),
        }
    }

    pub fn child(self) -> (r: Result<ChildState, String>)
        ensures
            result_view(r) == self@.child(),
    {
        match self {
            Reply::Child(r) => r,
            _ => Err(misfit_text()),
        }
    }
}

/// Where a procedure stands: it waits in the state `S` for the reply to an effect, or it
/// has ended.
#[derive(Debug, PartialEq, Eq)]
pub enum Step<S, T> {
    Perform(S, Effect),
    Finished(Result<T, String>),
}

/// The mathematical model of a `Step`.
pub enum StepView<S, T> {
    Perform(S, EffectView),
    Finished(Result<T, Text>),
}

impl<S: View, T: View> View for Step<S, T> {
    type V = StepView<S::V, T::V>;

    open spec fn view(&self) -> StepView<S::V, T::V> {
        match self {
            Step::Perform(s, e) => StepView::Perform(s@, e@),
            Step::Finished(r) => StepView::Finished(result_view(*r)),
        }
    }
}

/// Ends with the failure `m`.
pub open spec fn fails<S, T>(m: Text) -> StepView<S, T> {
    StepView::Finished(Err(m))
}

/// Ends with `v`.
pub open spec fn succeeds<S, T>(v: T) -> StepView<S, T> {
    StepView::Finished(Ok(v))
}

/// The step after the reply `r`, where `next` says how the procedure goes on.
pub open spec fn follow<S, T>(
    next: spec_fn(S, ReplyView) -> StepView<S, T>,
    step: StepView<S, T>,
    r: ReplyView,
) -> StepView<S, T> {
    match step {
        StepView::Perform(s, _) => next(s, r),
        StepView::Finished(_) => step,
    }
}

/// The step after all of `replies`.
pub open spec fn run<S, T>(
    next: spec_fn(S, ReplyView) -> StepView<S, T>,
    first: StepView<S, T>,
    replies: Seq<ReplyView>,
) -> StepView<S, T>
    decreases replies.len(),
{
    if replies.len() == 0 {
        first
    } else {
        follow(next, run(next, first, replies.drop_last()), replies.last())
    }
}

/// The effect that the procedure asks for, where it has not ended.
pub open spec fn asked<S, T>(step: StepView<S, T>) -> Option<EffectView> {
    match step {
        StepView::Perform(_, e) => Some(e),
        StepView::Finished(_) => None,
    }
}

/// Every step that does not end the procedure lowers its rank.
pub open spec fn descends<S, T>(
    next: spec_fn(S, ReplyView) -> StepView<S, T>,
    rank: spec_fn(S) -> int,
) -> bool {
    forall|s: S, r: ReplyView|
        #![trigger next(s, r)]
        0 <= rank(s) && (next(s, r) matches StepView::Perform(s2, _) ==> 0 <= rank(s2) < rank(s))
}

/// A run that has not ended has lost one of its rank with every reply.
pub proof fn lemma_rank<S, T>(
    next: spec_fn(S, ReplyView) -> StepView<S, T>,
    rank: spec_fn(S) -> int,
    first: StepView<S, T>,
    replies: Seq<ReplyView>,
)
    requires
        descends(next, rank),
        first is Perform,
    ensures
        run(next, first, replies) matches StepView::Perform(s, _) ==> rank(s) + replies.len()
            <= rank(first->Perform_0),
    decreases replies.len(),
{
    if replies.len() > 0 {
        lemma_rank(next, rank, first, replies.drop_last());
        if let StepView::Perform(s, _) = run(next, first, replies.drop_last()) {
            let _ = next(s, replies.last());
        }
    }
}

/// A run with more replies than the rank of its beginning has ended.
pub proof fn lemma_run_ends<S, T>(
    next: spec_fn(S, ReplyView) -> StepView<S, T>,
    rank: spec_fn(S) -> int,
    first: StepView<S, T>,
    replies: Seq<ReplyView>,
)
    requires
        descends(next, rank),
        first matches StepView::Perform(s, _) ==> rank(s) < replies.len(),
    ensures
        run(next, first, replies) is Finished,
    decreases replies.len(),
{
    if first is Perform {
        lemma_rank(next, rank, first, replies);
        if let StepView::Perform(s, _) = run(next, first, replies) {
            let _ = next(s, replies.last());
        }
    } else {
        lemma_ended(next, first, replies);
    }
}

/// A procedure that has ended stays as it is.
pub proof fn lemma_ended<S, T>(
    next: spec_fn(S, ReplyView) -> StepView<S, T>,
    first: StepView<S, T>,
    replies: Seq<ReplyView>,
)
    requires
        first is Finished,
    ensures
        run(next, first, replies) == first,
    decreases replies.len(),
{
    if replies.len() > 0 {
        lemma_ended(next, first, replies.drop_last());
    }
}

/// One reply more is one step further.
pub proof fn lemma_run_step<S, T>(
    next: spec_fn(S, ReplyView) -> StepView<S, T>,
    first: StepView<S, T>,
    replies: Seq<ReplyView>,
    i: int,
)
    requires
        0 <= i < replies.len(),
    ensures
        run(next, first, replies.take(i + 1)) == follow(
            next,
            run(next, first, replies.take(i)),
            replies[i],
        ),
{
    assert(replies.take(i + 1).drop_last() =~= replies.take(i));
}

/// A run that has ended before all replies have come ends as it did then.
pub proof fn lemma_run_prefix<S, T>(
    next: spec_fn(S, ReplyView) -> StepView<S, T>,
    first: StepView<S, T>,
    replies: Seq<ReplyView>,
    k: int,
)
    requires
        0 <= k <= replies.len(),
    ensures
        run(next, first, replies.take(k)) is Finished ==> run(next, first, replies) == run(
            next,
            first,
            replies.take(k),
        ),
    decreases replies.len() - k,
{
    if k == replies.len() {
        assert(replies.take(k) =~= replies);
    } else {
        lemma_run_step(next, first, replies, k);
        lemma_run_prefix(next, first, replies, k + 1);
    }
}

} // verus!
