//! No command waits forever: every procedure ends after a bounded number of replies,
//! whatever they are.
use vstd::prelude::*;

use crate::api::{ApiPhase, API_TRIES};
use crate::cli::{cli_first, cli_step, CliView};
use crate::command::Job;
use crate::config::ConfigView;
use crate::config_store::{load_first, load_step, save_first, save_step, LoadPhase, SavePhase};
use crate::effect::{descends, lemma_run_ends, run, ReplyView, StepView};
use crate::launch::{launch_first, launch_step, LaunchView};
use crate::layout::HostView;
use crate::register::{
    install_first, install_step, register_first, register_step, InstallView, RegisterView,
};
use crate::start::{start_first, start_step, StartView};
use crate::start_law::StartRun;
use crate::status::{status_first, status_step, StatusPhase};
use crate::stop::{
    close_first, close_step, stop_first, stop_step, ClosePhase, EndPhase, StopPhase, EXIT_POLLS,
};
use crate::text::Text;
use crate::upgrade::{ensure_first, ensure_step, EnsurePhase};
use crate::window::{window_first, window_step, WindowPhase};

verus! {

/// How many steps of saving the configuration are left at most.
pub open spec fn save_rank(p: SavePhase) -> int {
    match p {
        SavePhase::CreateDir => 3,
        SavePhase::Encode => 2,
        SavePhase::Write => 1,
        SavePhase::Protect => 0,
    }
}

/// How many steps of making sure of the runtime are left at most.
pub open spec fn ensure_rank(p: EnsurePhase) -> int {
    match p {
        EnsurePhase::ReadMarker => 16,
        EnsurePhase::ProbeInitialized => 15,
        EnsurePhase::ProbeNb(_) => 14,
        EnsurePhase::ProbeStorage(_) => 13,
        EnsurePhase::MoveStorage(_) => 12,
        EnsurePhase::ProbeRuntime(_) => 11,
        EnsurePhase::RemoveRuntime(_) => 10,
        EnsurePhase::CreateRuntime(_) => 9,
        EnsurePhase::FindArchive(_) => 8,
        EnsurePhase::Unpack(_) => 7,
        EnsurePhase::ProbeBackup(_) => 6,
        EnsurePhase::ProbeUnpacked(_) => 5,
        EnsurePhase::RemoveUnpacked(_) => 4,
        EnsurePhase::RestoreStorage(_) => 3,
        EnsurePhase::MarkInitialized(_) => 2,
        EnsurePhase::MarkNb(_) => 1,
        EnsurePhase::MarkReady(_) => 0,
    }
}

/// How many steps of running Node.js are left at most.
pub open spec fn launch_rank(p: LaunchView) -> int {
    match p {
        LaunchView::FindNode => 4,
        LaunchView::AskShell(_) => 3,
        LaunchView::CreateLogDir(_, _) => 2,
        LaunchView::OpenLog(_, _) => 1,
        LaunchView::Execute => 0,
    }
}

/// How many steps of waiting for the server are left at most. The counter of a run stays
/// below the number of tries; a larger one ends it at once.
pub open spec fn api_rank(p: ApiPhase) -> int {
    match p {
        ApiPhase::Ask(n) => if n < API_TRIES {
            2 * (API_TRIES - n) - 1
        } else {
            1
        },
        ApiPhase::Pause(n) => if n < API_TRIES {
            2 * (API_TRIES - n) - 2
        } else {
            0
        },
    }
}

/// How many steps of installing the launcher are left at most.
pub open spec fn install_rank(p: InstallView) -> int {
    match p {
        InstallView::FindNode => 5,
        InstallView::CreateBin(_) => 4,
        InstallView::DisplayRuntime(_) => 3,
        InstallView::DisplayNode(_) => 2,
        InstallView::Write => 1,
        InstallView::Protect => 0,
    }
}

/// How many steps of registering the server are left at most.
pub open spec fn register_rank(p: RegisterView) -> int {
    match p {
        RegisterView::Probe => 12,
        RegisterView::Install(p) => 6 + install_rank(p),
        RegisterView::Launch(p) => 1 + launch_rank(p),
        RegisterView::Mark => 0,
    }
}

/// How many steps of starting are left at most.
pub open spec fn start_rank(s: StartView) -> int {
    match s {
        StartView::Save(p) => 650 + save_rank(p),
        StartView::Ensure(p) => 633 + ensure_rank(p),
        StartView::Probe => 632,
        StartView::Install(p) => 627 + launch_rank(p),
        StartView::Enable(p) => 622 + launch_rank(p),
        StartView::Mark => 621,
        StartView::Lock => 620,
        StartView::Poll => 619,
        StartView::Serve(p) => 614 + launch_rank(p),
        StartView::Unlock => 613,
        StartView::Wait(p) => 13 + api_rank(p),
        StartView::Register(p) => register_rank(p),
    }
}

/// How many steps of loading the configuration are left at most.
pub open spec fn load_rank(p: LoadPhase) -> int {
    match p {
        LoadPhase::Probe => 2,
        LoadPhase::Read => 1,
        LoadPhase::Decode => 0,
    }
}

/// How many steps of telling the status are left at most.
pub open spec fn status_rank(p: StatusPhase) -> int {
    match p {
        StatusPhase::Lock => 5,
        StatusPhase::Poll => 4,
        StatusPhase::Forget => 3,
        StatusPhase::Connect(_) => 2,
        StatusPhase::Probe(_) => 1,
        StatusPhase::Display(_, _) => 0,
    }
}

/// How many steps of ending the child are left at most.
pub open spec fn end_rank(p: EndPhase) -> int {
    match p {
        EndPhase::AskChild => 2 * EXIT_POLLS + 2,
        EndPhase::Poll(n) => if n < EXIT_POLLS {
            2 * (EXIT_POLLS - n) + 1
        } else {
            3
        },
        EndPhase::Pause(n) => if n < EXIT_POLLS {
            2 * (EXIT_POLLS - n)
        } else {
            2
        },
        EndPhase::KillGroup => 1,
        EndPhase::KillChild => 1,
        EndPhase::AskGroup => 0,
        EndPhase::Wait => 0,
    }
}

/// How many steps of stopping the server are left at most.
pub open spec fn stop_rank(p: StopPhase) -> int {
    match p {
        StopPhase::Lock => 2 * EXIT_POLLS + 4,
        StopPhase::Take => 2 * EXIT_POLLS + 3,
        StopPhase::End(p) => end_rank(p),
    }
}

/// How many steps of closing the application are left at most.
pub open spec fn close_rank(p: ClosePhase) -> int {
    match p {
        ClosePhase::Stop(p) => 2 + stop_rank(p),
        ClosePhase::Unlock => 1,
        ClosePhase::Exit => 0,
    }
}

/// How many steps of opening the window are left at most.
pub open spec fn window_rank(p: WindowPhase) -> int {
    match p {
        WindowPhase::Find => 2,
        WindowPhase::Navigate => 1,
        WindowPhase::Focus => 0,
        WindowPhase::Open => 0,
    }
}

/// How many steps of installing the `nb` command are left at most.
pub open spec fn cli_rank(p: CliView) -> int {
    match p {
        CliView::Ensure(p) => 7 + ensure_rank(p),
        CliView::Install(p) => 1 + install_rank(p),
        CliView::Display => 0,
    }
}

/// Every step of starting brings it nearer to its end.
#[verifier::rlimit(60)]
pub proof fn lemma_start_descends(
    host: HostView,
    config: ConfigView,
    id: Text,
    s: StartView,
    r: ReplyView,
)
    ensures
        0 <= start_rank(s),
        start_step(host, config, id, s, r) matches StepView::Perform(s2, _) ==> 0 <= start_rank(s2)
            < start_rank(s),
{
}

/// Starting always ends: after 654 replies at the latest.
pub proof fn law_start_ends(start: StartRun)
    requires
        start.replies.len() >= 654,
    ensures
        run(start.rule(), start_first(start.host), start.replies) is Finished,
{
    let rank = |s: StartView| start_rank(s);
    assert forall|s: StartView, r: ReplyView|
        #![trigger (start.rule())(s, r)]
        0 <= rank(s) && ((start.rule())(s, r) matches StepView::Perform(s2, _) ==> 0 <= rank(s2)
            < rank(s)) by {
        lemma_start_descends(start.host, start.config, start.id, s, r);
    }
    lemma_run_ends(start.rule(), rank, start_first(start.host), start.replies);
}

/// Saving the configuration always ends.
pub proof fn law_save_ends(host: HostView, config: ConfigView, replies: Seq<ReplyView>)
    requires
        replies.len() >= 4,
    ensures
        run(
            |s: SavePhase, r: ReplyView| save_step(host, config, s, r),
            save_first(host),
            replies,
        ) is Finished,
{
    let next = |s: SavePhase, r: ReplyView| save_step(host, config, s, r);
    let rank = |s: SavePhase| save_rank(s);
    assert(descends(next, rank));
    lemma_run_ends(next, rank, save_first(host), replies);
}

/// Loading the configuration always ends.
pub proof fn law_load_ends(host: HostView, fresh: ConfigView, replies: Seq<ReplyView>)
    requires
        replies.len() >= 3,
    ensures
        run(
            |s: LoadPhase, r: ReplyView| load_step(s, r, fresh),
            load_first(host),
            replies,
        ) is Finished,
{
    let next = |s: LoadPhase, r: ReplyView| load_step(s, r, fresh);
    let rank = |s: LoadPhase| load_rank(s);
    assert(descends(next, rank));
    lemma_run_ends(next, rank, load_first(host), replies);
}

/// Making sure of the runtime always ends.
pub proof fn law_ensure_ends(host: HostView, id: Text, replies: Seq<ReplyView>)
    requires
        replies.len() >= 17,
    ensures
        run(
            |s: EnsurePhase, r: ReplyView| ensure_step(host, id, s, r),
            ensure_first(host),
            replies,
        ) is Finished,
{
    let next = |s: EnsurePhase, r: ReplyView| ensure_step(host, id, s, r);
    let rank = |s: EnsurePhase| ensure_rank(s);
    assert(descends(next, rank));
    lemma_run_ends(next, rank, ensure_first(host), replies);
}

/// Running Node.js takes a bounded number of steps.
pub proof fn law_launch_ends(host: HostView, config: ConfigView, job: Job, replies: Seq<ReplyView>)
    requires
        replies.len() >= 5,
    ensures
        run(
            |s: LaunchView, r: ReplyView| launch_step(host, config, job, s, r),
            launch_first(host),
            replies,
        ) is Finished,
{
    let next = |s: LaunchView, r: ReplyView| launch_step(host, config, job, s, r);
    let rank = |s: LaunchView| launch_rank(s);
    assert(descends(next, rank));
    lemma_run_ends(next, rank, launch_first(host), replies);
}

/// Installing the launcher always ends.
pub proof fn law_install_ends(host: HostView, replies: Seq<ReplyView>)
    requires
        replies.len() >= 6,
    ensures
        run(
            |s: InstallView, r: ReplyView| install_step(host, s, r),
            install_first(host),
            replies,
        ) is Finished,
{
    let next = |s: InstallView, r: ReplyView| install_step(host, s, r);
    let rank = |s: InstallView| install_rank(s);
    assert(descends(next, rank));
    lemma_run_ends(next, rank, install_first(host), replies);
}

/// Registering the server always ends.
pub proof fn law_register_ends(host: HostView, config: ConfigView, replies: Seq<ReplyView>)
    requires
        replies.len() >= 13,
    ensures
        run(
            |s: RegisterView, r: ReplyView| register_step(host, config, s, r),
            register_first(),
            replies,
        ) is Finished,
{
    let next = |s: RegisterView, r: ReplyView| register_step(host, config, s, r);
    let rank = |s: RegisterView| register_rank(s);
    assert(descends(next, rank));
    lemma_run_ends(next, rank, register_first(), replies);
}

/// Telling the status always ends.
pub proof fn law_status_ends(host: HostView, replies: Seq<ReplyView>)
    requires
        replies.len() >= 6,
    ensures
        run(
            |s: StatusPhase, r: ReplyView| status_step(host, s, r),
            status_first(),
            replies,
        ) is Finished,
{
    let next = |s: StatusPhase, r: ReplyView| status_step(host, s, r);
    let rank = |s: StatusPhase| status_rank(s);
    assert(descends(next, rank));
    lemma_run_ends(next, rank, status_first(), replies);
}

/// Stopping the server always ends.
pub proof fn law_stop_ends(host: HostView, replies: Seq<ReplyView>)
    requires
        replies.len() >= 165,
    ensures
        run(|s: StopPhase, r: ReplyView| stop_step(host, s, r), stop_first(), replies) is Finished,
{
    let next = |s: StopPhase, r: ReplyView| stop_step(host, s, r);
    let rank = |s: StopPhase| stop_rank(s);
    assert(descends(next, rank));
    lemma_run_ends(next, rank, stop_first(), replies);
}

/// Closing the application always ends.
pub proof fn law_close_ends(host: HostView, label: Text, destroyed: bool, replies: Seq<ReplyView>)
    requires
        replies.len() >= 167,
    ensures
        run(
            |s: ClosePhase, r: ReplyView| close_step(host, s, r),
            close_first(label, destroyed),
            replies,
        ) is Finished,
{
    let next = |s: ClosePhase, r: ReplyView| close_step(host, s, r);
    let rank = |s: ClosePhase| close_rank(s);
    assert(descends(next, rank));
    lemma_run_ends(next, rank, close_first(label, destroyed), replies);
}

/// Opening the window always ends.
pub proof fn law_window_ends(replies: Seq<ReplyView>)
    requires
        replies.len() >= 3,
    ensures
        run(|s: WindowPhase, r: ReplyView| window_step(s, r), window_first(), replies) is Finished,
{
    let next = |s: WindowPhase, r: ReplyView| window_step(s, r);
    let rank = |s: WindowPhase| window_rank(s);
    assert(descends(next, rank));
    lemma_run_ends(next, rank, window_first(), replies);
}

/// Installing the `nb` command always ends.
pub proof fn law_cli_ends(host: HostView, id: Text, replies: Seq<ReplyView>)
    requires
        replies.len() >= 24,
    ensures
        run(
            |s: CliView, r: ReplyView| cli_step(host, id, s, r),
            cli_first(host),
            replies,
        ) is Finished,
{
    let next = |s: CliView, r: ReplyView| cli_step(host, id, s, r);
    let rank = |s: CliView| cli_rank(s);
    assert(descends(next, rank));
    lemma_run_ends(next, rank, cli_first(host), replies);
}

} // verus!
