//! Unpacking the runtime, and replacing the one of another version.
//!
//! The directory `storage` in the runtime belongs to the user. It is moved out before the old
//! runtime is removed and moved back into the new one.
use vstd::prelude::*;

use crate::config::{fresh_id, is_random_id};
use crate::effect::{fails, succeeds, Effect, EffectView, Reply, ReplyView, Step, StepView};
use crate::layout::{
    bundled_resource, data_dir, home_unknown, initialized_marker, initialized_marker_path,
    nb_marker, nb_marker_path, need_home, need_resources, ready_marker, ready_marker_path, resource,
    runtime, runtime_path, storage, storage_backup, storage_backup_path, storage_path, Host,
    HostView,
};
use crate::path::{FilePath, PathView};
use crate::text::{same_text, trim, trimmed, Text};

verus! {

/// What the old runtime had been through. The new one inherits it.
#[derive(Clone, Copy, Debug, PartialEq, Eq, Structural)]
pub struct Kept {
    pub initialized: bool,
    pub nb_initialized: bool,
}

/// What the procedure waits for.
#[derive(Clone, Copy, Debug, PartialEq, Eq, Structural)]
pub enum EnsurePhase {
    ReadMarker,
    ProbeInitialized,
    ProbeNb(bool),
    ProbeStorage(Kept),
    MoveStorage(Kept),
    ProbeRuntime(Kept),
    RemoveRuntime(Kept),
    CreateRuntime(Kept),
    FindArchive(Kept),
    Unpack(Kept),
    ProbeBackup(Kept),
    ProbeUnpacked(Kept),
    RemoveUnpacked(Kept),
    RestoreStorage(Kept),
    MarkInitialized(Kept),
    MarkNb(Kept),
    MarkReady(Kept),
}

impl View for EnsurePhase {
    type V = EnsurePhase;

    open spec fn view(&self) -> EnsurePhase {
        *self
    }
}

/// Where the procedure stands.
pub type EnsureView = StepView<EnsurePhase, PathView>;

/// The first thing to do: read which version unpacked the runtime.
pub open spec fn ensure_first(host: HostView) -> EnsureView {
    if host.home_found {
        StepView::Perform(EnsurePhase::ReadMarker, EffectView::ReadText(ready_marker()))
    } else {
        fails(home_unknown())
    }
}

/// Look for the runtime that is to be replaced.
pub open spec fn probe_runtime(kept: Kept) -> EnsureView {
    StepView::Perform(EnsurePhase::ProbeRuntime(kept), EffectView::Exists(runtime()))
}

/// Create the directory of the new runtime.
pub open spec fn create_runtime(kept: Kept) -> EnsureView {
    StepView::Perform(EnsurePhase::CreateRuntime(kept), EffectView::CreateDirs(runtime()))
}

/// Move the user's files into the new runtime.
pub open spec fn restore_storage(id: Text, kept: Kept) -> EnsureView {
    StepView::Perform(
        EnsurePhase::RestoreStorage(kept),
        EffectView::Rename(storage_backup(id), storage()),
    )
}

/// Leave the marks of the old runtime in the new one, and last of all the mark that it is
/// complete.
pub open spec fn leave_marks(host: HostView, kept: Kept) -> EnsureView {
    if kept.initialized {
        StepView::Perform(
            EnsurePhase::MarkInitialized(kept),
            EffectView::WriteText(initialized_marker(), "ok"@),
        )
    } else {
        leave_nb_mark(host, kept)
    }
}

/// Leave the second mark of the old runtime.
pub open spec fn leave_nb_mark(host: HostView, kept: Kept) -> EnsureView {
    if kept.nb_initialized {
        StepView::Perform(EnsurePhase::MarkNb(kept), EffectView::WriteText(nb_marker(), "ok"@))
    } else {
        leave_ready_mark(host, kept)
    }
}

/// Leave the mark that the runtime is complete.
pub open spec fn leave_ready_mark(host: HostView, kept: Kept) -> EnsureView {
    StepView::Perform(
        EnsurePhase::MarkReady(kept),
        EffectView::WriteText(ready_marker(), host.version),
    )
}

/// How the procedure goes on from `phase` when the reply `r` has come.
pub open spec fn ensure_step(
    host: HostView,
    id: Text,
    phase: EnsurePhase,
    r: ReplyView,
) -> EnsureView {
    match phase {
        EnsurePhase::ReadMarker => match r.text() {
            Ok(version) if trimmed(version) == host.version => succeeds(runtime()),
            _ => StepView::Perform(
                EnsurePhase::ProbeInitialized,
                EffectView::Exists(initialized_marker()),
            ),
        },
        EnsurePhase::ProbeInitialized => match r.answer() {
            Ok(b) => StepView::Perform(EnsurePhase::ProbeNb(b), EffectView::Exists(nb_marker())),
            Err(m) => fails(m),
        },
        EnsurePhase::ProbeNb(initialized) => match r.answer() {
            Ok(b) => StepView::Perform(
                EnsurePhase::ProbeStorage(Kept { initialized, nb_initialized: b }),
                EffectView::Exists(storage()),
            ),
            Err(m) => fails(m),
        },
        EnsurePhase::ProbeStorage(kept) => match r.answer() {
            Ok(true) => StepView::Perform(
                EnsurePhase::MoveStorage(kept),
                EffectView::Rename(storage(), storage_backup(id)),
            ),
            Ok(false) => probe_runtime(kept),
            Err(m) => fails(m),
        },
        EnsurePhase::MoveStorage(kept) => match r.done() {
            Ok(_) => probe_runtime(kept),
            Err(m) => fails(m),
        },
        EnsurePhase::ProbeRuntime(kept) => match r.answer() {
            Ok(true) => StepView::Perform(
                EnsurePhase::RemoveRuntime(kept),
                EffectView::RemoveTree(runtime()),
            ),
            Ok(false) => create_runtime(kept),
            Err(m) => fails(m),
        },
        EnsurePhase::RemoveRuntime(kept) => match r.done() {
            Ok(_) => create_runtime(kept),
            Err(m) => fails(m),
        },
        EnsurePhase::CreateRuntime(kept) => match r.done() {
            Ok(_) => match host.resources {
                Ok(_) => StepView::Perform(
                    EnsurePhase::FindArchive(kept),
                    EffectView::Exists(resource("runtime.tar.gz"@, true)),
                ),
                Err(m) => fails(m),
            },
            Err(m) => fails(m),
        },
        EnsurePhase::FindArchive(kept) => match r.answer() {
            Ok(nested) => StepView::Perform(
                EnsurePhase::Unpack(kept),
                EffectView::Unpack(resource("runtime.tar.gz"@, nested), runtime()),
            ),
            Err(m) => fails(m),
        },
        EnsurePhase::Unpack(kept) => match r.done() {
            Ok(_) => StepView::Perform(
                EnsurePhase::ProbeBackup(kept),
                EffectView::Exists(storage_backup(id)),
            ),
            Err(m) => fails(m),
        },
        EnsurePhase::ProbeBackup(kept) => match r.answer() {
            Ok(true) => StepView::Perform(
                EnsurePhase::ProbeUnpacked(kept),
                EffectView::Exists(storage()),
            ),
            Ok(false) => leave_marks(host, kept),
            Err(m) => fails(m),
        },
        EnsurePhase::ProbeUnpacked(kept) => match r.answer() {
            Ok(true) => StepView::Perform(
                EnsurePhase::RemoveUnpacked(kept),
                EffectView::RemoveTree(storage()),
            ),
            Ok(false) => restore_storage(id, kept),
            Err(m) => fails(m),
        },
        EnsurePhase::RemoveUnpacked(kept) => match r.done() {
            Ok(_) => restore_storage(id, kept),
            Err(m) => fails(m),
        },
        EnsurePhase::RestoreStorage(kept) => match r.done() {
            Ok(_) => leave_marks(host, kept),
            Err(m) => fails(m),
        },
        EnsurePhase::MarkInitialized(kept) => match r.done() {
            Ok(_) => leave_nb_mark(host, kept),
            Err(m) => fails(m),
        },
        EnsurePhase::MarkNb(kept) => match r.done() {
            Ok(_) => leave_ready_mark(host, kept),
            Err(m) => fails(m),
        },
        EnsurePhase::MarkReady(_) => match r.done() {
            Ok(_) => succeeds(runtime()),
            Err(m) => fails(m),
        },
    }
}

/// An identifier for one replacement of the runtime.
pub fn upgrade_id() -> (r: String)
    ensures
        is_random_id(r@),
{
    fresh_id()
}

/// Begins: the runtime of this version is in its place when the procedure has succeeded.
pub fn ensure_runtime(host: &Host) -> (r: Step<EnsurePhase, FilePath>)
    ensures
        r@ == ensure_first(host@),
{
    match need_home(host) {
        Ok(_) => Step::Perform(EnsurePhase::ReadMarker, Effect::ReadText(ready_marker_path())),
        Err(m) => Step::Finished(Err(m)),
    }
}

fn probe_runtime_step(kept: Kept) -> (r: Step<EnsurePhase, FilePath>)
    ensures
        r@ == probe_runtime(kept),
{
    Step::Perform(EnsurePhase::ProbeRuntime(kept), Effect::Exists(runtime_path()))
}

fn create_runtime_step(kept: Kept) -> (r: Step<EnsurePhase, FilePath>)
    ensures
        r@ == create_runtime(kept),
{
    Step::Perform(EnsurePhase::CreateRuntime(kept), Effect::CreateDirs(runtime_path()))
}

/// The path of the backup in a replacement of the runtime.
fn backup_path(id: &str) -> (r: Result<FilePath, String>)
    ensures
        r matches Ok(p) && p@ == storage_backup(id@),
{
    assert(runtime().parts.drop_last() =~= data_dir().parts);
    storage_backup_path(&runtime_path(), id)
}

fn restore_storage_step(id: &str, kept: Kept) -> (r: Step<EnsurePhase, FilePath>)
    ensures
        r@ == restore_storage(id@, kept),
{
    match backup_path(id) {
        Ok(backup) => Step::Perform(
            EnsurePhase::RestoreStorage(kept),
            Effect::Rename(backup, storage_path()),
        ),
        Err(m) => Step::Finished(Err(m)),
    }
}

fn leave_ready_mark_step(host: &Host, kept: Kept) -> (r: Step<EnsurePhase, FilePath>)
    ensures
        r@ == leave_ready_mark(host@, kept),
{
    Step::Perform(
        EnsurePhase::MarkReady(kept),
        Effect::WriteText(ready_marker_path(), host.version.clone()),
    )
}

fn leave_nb_mark_step(host: &Host, kept: Kept) -> (r: Step<EnsurePhase, FilePath>)
    ensures
        r@ == leave_nb_mark(host@, kept),
{
    if kept.nb_initialized {
        Step::Perform(
            EnsurePhase::MarkNb(kept),
            Effect::WriteText(nb_marker_path(), "ok".to_owned()),
        )
    } else {
        leave_ready_mark_step(host, kept)
    }
}

fn leave_marks_step(host: &Host, kept: Kept) -> (r: Step<EnsurePhase, FilePath>)
    ensures
        r@ == leave_marks(host@, kept),
{
    if kept.initialized {
        Step::Perform(
            EnsurePhase::MarkInitialized(kept),
            Effect::WriteText(initialized_marker_path(), "ok".to_owned()),
        )
    } else {
        leave_nb_mark_step(host, kept)
    }
}

/// Goes on from `phase` when the reply has come.
pub fn ensure_next(host: &Host, id: &str, phase: EnsurePhase, reply: Reply) -> (r: Step<
    EnsurePhase,
    FilePath,
>)
    ensures
        r@ == ensure_step(host@, id@, phase, reply@),
{
    match phase {
        EnsurePhase::ReadMarker => {
            if let Ok(version) = reply.text() {
                if same_text(trim(version.as_str()), host.version.as_str()) {
                    return Step::Finished(Ok(runtime_path()));
                }
            }
            Step::Perform(
                EnsurePhase::ProbeInitialized,
                Effect::Exists(initialized_marker_path()),
            )
        },
        EnsurePhase::ProbeInitialized => match reply.answer() {
            Ok(b) => Step::Perform(EnsurePhase::ProbeNb(b), Effect::Exists(nb_marker_path())),
            Err(m) => Step::Finished(Err(m)),
        },
        EnsurePhase::ProbeNb(initialized) => match reply.answer() {
            Ok(b) => Step::Perform(
                EnsurePhase::ProbeStorage(Kept { initialized, nb_initialized: b }),
                Effect::Exists(storage_path()),
            ),
            Err(m) => Step::Finished(Err(m)),
        },
        EnsurePhase::ProbeStorage(kept) => match reply.answer() {
            Ok(there) => if there {
                match backup_path(id) {
                    Ok(backup) => Step::Perform(
                        EnsurePhase::MoveStorage(kept),
                        Effect::Rename(storage_path(), backup),
                    ),
                    Err(m) => Step::Finished(Err(m)),
                }
            } else {
                probe_runtime_step(kept)
            },
            Err(m) => Step::Finished(Err(m)),
        },
        EnsurePhase::MoveStorage(kept) => match reply.done() {
            Ok(_) => probe_runtime_step(kept),
            Err(m) => Step::Finished(Err(m)),
        },
        EnsurePhase::ProbeRuntime(kept) => match reply.answer() {
            Ok(there) => if there {
                Step::Perform(EnsurePhase::RemoveRuntime(kept), Effect::RemoveTree(runtime_path()))
            } else {
                create_runtime_step(kept)
            },
            Err(m) => Step::Finished(Err(m)),
        },
        EnsurePhase::RemoveRuntime(kept) => match reply.done() {
            Ok(_) => create_runtime_step(kept),
            Err(m) => Step::Finished(Err(m)),
        },
        EnsurePhase::CreateRuntime(kept) => match reply.done() {
            Ok(_) => match need_resources(host) {
                Ok(_) => Step::Perform(
                    EnsurePhase::FindArchive(kept),
                    Effect::Exists(bundled_resource("runtime.tar.gz", true)),
                ),
                Err(m) => Step::Finished(Err(m)),
            },
            Err(m) => Step::Finished(Err(m)),
        },
        EnsurePhase::FindArchive(kept) => match reply.answer() {
            Ok(nested) => Step::Perform(
                EnsurePhase::Unpack(kept),
                Effect::Unpack(bundled_resource("runtime.tar.gz", nested), runtime_path()),
            ),
            Err(m) => Step::Finished(Err(m)),
        },
        EnsurePhase::Unpack(kept) => match reply.done() {
            Ok(_) => match backup_path(id) {
                Ok(backup) => Step::Perform(
                    EnsurePhase::ProbeBackup(kept),
                    Effect::Exists(backup),
                ),
                Err(m) => Step::Finished(Err(m)),
            },
            Err(m) => Step::Finished(Err(m)),
        },
        EnsurePhase::ProbeBackup(kept) => match reply.answer() {
            Ok(there) => if there {
                Step::Perform(EnsurePhase::ProbeUnpacked(kept), Effect::Exists(storage_path()))
            } else {
                leave_marks_step(host, kept)
            },
            Err(m) => Step::Finished(Err(m)),
        },
        EnsurePhase::ProbeUnpacked(kept) => match reply.answer() {
            Ok(there) => if there {
                Step::Perform(
                    EnsurePhase::RemoveUnpacked(kept),
                    Effect::RemoveTree(storage_path()),
                )
            } else {
                restore_storage_step(id, kept)
            },
            Err(m) => Step::Finished(Err(m)),
        },
        EnsurePhase::RemoveUnpacked(kept) => match reply.done() {
            Ok(_) => restore_storage_step(id, kept),
            Err(m) => Step::Finished(Err(m)),
        },
        EnsurePhase::RestoreStorage(kept) => match reply.done() {
            Ok(_) => leave_marks_step(host, kept),
            Err(m) => Step::Finished(Err(m)),
        },
        EnsurePhase::MarkInitialized(kept) => match reply.done() {
            Ok(_) => leave_nb_mark_step(host, kept),
            Err(m) => Step::Finished(Err(m)),
        },
        EnsurePhase::MarkNb(kept) => match reply.done() {
            Ok(_) => leave_ready_mark_step(host, kept),
            Err(m) => Step::Finished(Err(m)),
        },
        EnsurePhase::MarkReady(_) => match reply.done() {
            Ok(_) => Step::Finished(Ok(runtime_path())),
            Err(m) => Step::Finished(Err(m)),
        },
    }
}

} // verus!
