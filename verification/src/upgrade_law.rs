//! What replacing the runtime leaves untouched, and what it puts in its place.
use vstd::prelude::*;
use vstd::utf8::encode_utf8;

use crate::disk::{
    below, is_free, is_tree, laid_over, lemma_shorter_run, moved, performs, runs_on_disk, same_at,
    same_outside, same_tree, Disk, Node,
};
use crate::effect::{
    asked, lemma_run_prefix, lemma_run_step, run, EffectView, ReplyView, StepView,
};
use crate::layout::{
    bin_dir, config_file, home_unknown, initialized_marker, launcher_file, log_dir, log_file,
    nb_marker, ready_marker, resource, runtime, storage, storage_backup, HostView,
};
use crate::path::PathView;
use crate::text::{is_white_space, trimmed, Text};
use crate::upgrade::{ensure_first, ensure_step, EnsurePhase, EnsureView, Kept};

verus! {

/// How the procedure goes on, as one function of its phase and the reply.
pub open spec fn ensure_rule(host: HostView, id: Text) -> spec_fn(
    EnsurePhase,
    ReplyView,
) -> EnsureView {
    |s: EnsurePhase, r: ReplyView| ensure_step(host, id, s, r)
}

/// Every path outside the runtime and the backup holds on `d` what it held on `d0`, if it
/// held anything.
pub open spec fn keeps_the_rest(d0: Disk, d: Disk, id: Text) -> bool {
    forall|q: PathView|
        #![trigger d0.contains_key(q)]
        d0.contains_key(q) && !q.within(runtime()) && !q.within(storage_backup(id)) ==> same_at(
            d0,
            q,
            d,
            q,
        )
}

/// The user's files are all at `p`, if there were any.
spec fn files_at(d0: Disk, d: Disk, p: PathView) -> bool {
    d0.contains_key(storage()) ==> same_tree(d0, storage(), d, p)
}

/// The file at `p` holds the text `t`.
pub open spec fn holds_text(d: Disk, p: PathView, t: Text) -> bool {
    d.contains_key(p) && d[p] == Node::File(encode_utf8(t))
}

/// What the phase remembers of the old runtime is true.
spec fn remembers(d0: Disk, kept: Kept) -> bool {
    &&& kept.initialized == d0.contains_key(initialized_marker())
    &&& kept.nb_initialized == d0.contains_key(nb_marker())
}

/// The user's files are in the backup, if there were any.
spec fn set_aside(d0: Disk, d: Disk, id: Text, kept: Kept) -> bool {
    &&& remembers(d0, kept)
    &&& files_at(d0, d, storage_backup(id))
    &&& !d0.contains_key(storage()) ==> is_free(d, storage_backup(id))
}

/// The user's files are back, if there were any.
spec fn brought_back(d0: Disk, d: Disk, kept: Kept) -> bool {
    &&& remembers(d0, kept)
    &&& files_at(d0, d, storage())
}

/// What holds while the procedure waits in `phase`.
spec fn holds_in(phase: EnsurePhase, d0: Disk, d: Disk, id: Text) -> bool {
    match phase {
        EnsurePhase::ReadMarker => d == d0,
        EnsurePhase::ProbeInitialized => d == d0,
        EnsurePhase::ProbeNb(b) => d == d0 && b == d0.contains_key(initialized_marker()),
        EnsurePhase::ProbeStorage(kept) => d == d0 && remembers(d0, kept),
        EnsurePhase::MoveStorage(kept) => {
            d == d0 && remembers(d0, kept) && d0.contains_key(storage())
        },
        EnsurePhase::ProbeRuntime(kept) => set_aside(d0, d, id, kept),
        EnsurePhase::RemoveRuntime(kept) => set_aside(d0, d, id, kept),
        EnsurePhase::CreateRuntime(kept) => set_aside(d0, d, id, kept),
        EnsurePhase::FindArchive(kept) => set_aside(d0, d, id, kept),
        EnsurePhase::Unpack(kept) => set_aside(d0, d, id, kept),
        EnsurePhase::ProbeBackup(kept) => set_aside(d0, d, id, kept),
        EnsurePhase::ProbeUnpacked(kept) => set_aside(d0, d, id, kept),
        EnsurePhase::RemoveUnpacked(kept) => set_aside(d0, d, id, kept),
        EnsurePhase::RestoreStorage(kept) => set_aside(d0, d, id, kept),
        EnsurePhase::MarkInitialized(kept) => brought_back(d0, d, kept),
        EnsurePhase::MarkNb(kept) => {
            &&& brought_back(d0, d, kept)
            &&& kept.initialized ==> d.contains_key(initialized_marker())
        },
        EnsurePhase::MarkReady(kept) => {
            &&& brought_back(d0, d, kept)
            &&& kept.initialized ==> d.contains_key(initialized_marker())
            &&& kept.nb_initialized ==> d.contains_key(nb_marker())
        },
    }
}

/// The effect that the procedure waits for in `phase`.
spec fn awaited(host: HostView, id: Text, phase: EnsurePhase, e: EffectView) -> bool {
    match phase {
        EnsurePhase::ReadMarker => e == EffectView::ReadText(ready_marker()),
        EnsurePhase::ProbeInitialized => e == EffectView::Exists(initialized_marker()),
        EnsurePhase::ProbeNb(_) => e == EffectView::Exists(nb_marker()),
        EnsurePhase::ProbeStorage(_) => e == EffectView::Exists(storage()),
        EnsurePhase::MoveStorage(_) => e == EffectView::Rename(storage(), storage_backup(id)),
        EnsurePhase::ProbeRuntime(_) => e == EffectView::Exists(runtime()),
        EnsurePhase::RemoveRuntime(_) => e == EffectView::RemoveTree(runtime()),
        EnsurePhase::CreateRuntime(_) => e == EffectView::CreateDirs(runtime()),
        EnsurePhase::FindArchive(_) => e is Exists,
        EnsurePhase::Unpack(_) => e matches EffectView::Unpack(_, p) && p == runtime(),
        EnsurePhase::ProbeBackup(_) => e == EffectView::Exists(storage_backup(id)),
        EnsurePhase::ProbeUnpacked(_) => e == EffectView::Exists(storage()),
        EnsurePhase::RemoveUnpacked(_) => e == EffectView::RemoveTree(storage()),
        EnsurePhase::RestoreStorage(_) => e == EffectView::Rename(storage_backup(id), storage()),
        EnsurePhase::MarkInitialized(_) => e == EffectView::WriteText(
            initialized_marker(),
            "ok"@,
        ),
        EnsurePhase::MarkNb(_) => e == EffectView::WriteText(nb_marker(), "ok"@),
        EnsurePhase::MarkReady(_) => e == EffectView::WriteText(ready_marker(), host.version),
    }
}

/// The user's files are complete, in their place or in the backup.
pub open spec fn files_safe(d0: Disk, d: Disk, id: Text) -> bool {
    d0.contains_key(storage()) ==> same_tree(d0, storage(), d, storage()) || same_tree(
        d0,
        storage(),
        d,
        storage_backup(id),
    )
}

/// The disk after a successful end.
pub open spec fn is_ready(d0: Disk, d: Disk, version: Text) -> bool {
    &&& d0.contains_key(storage()) ==> same_tree(d0, storage(), d, storage())
    &&& d0.contains_key(initialized_marker()) ==> d.contains_key(initialized_marker())
    &&& d0.contains_key(nb_marker()) ==> d.contains_key(nb_marker())
    &&& holds_text(d, ready_marker(), version) || (d == d0 && is_current(d, version))
}

/// What holds at every moment of the procedure.
spec fn sound(host: HostView, id: Text, step: EnsureView, d0: Disk, d: Disk) -> bool {
    &&& keeps_the_rest(d0, d, id)
    &&& files_safe(d0, d, id)
    &&& match step {
        StepView::Perform(phase, e) => awaited(host, id, phase, e) && holds_in(phase, d0, d, id),
        StepView::Finished(Ok(p)) => p == runtime() && is_ready(d0, d, host.version),
        StepView::Finished(Err(_)) => true,
    }
}

/// The names of the directories and marks tell their paths apart.
proof fn lemma_apart(id: Text)
    ensures
        forall|s: Seq<Text>| !(#[trigger] below(storage_backup(id), s)).within(runtime()),
        forall|s: Seq<Text>| !runtime().within(#[trigger] below(storage_backup(id), s)),
        forall|s: Seq<Text>| !(#[trigger] below(storage_backup(id), s)).within(storage()),
        forall|s: Seq<Text>| !(#[trigger] below(storage(), s)).within(storage_backup(id)),
        forall|s: Seq<Text>| (#[trigger] below(storage(), s)).within(runtime()),
        forall|s: Seq<Text>| (#[trigger] below(storage(), s)).within(storage()),
        forall|s: Seq<Text>|
            (#[trigger] below(storage_backup(id), s)).within(storage_backup(id)),
        forall|s: Seq<Text>| #[trigger] below(storage(), s) != initialized_marker(),
        forall|s: Seq<Text>| #[trigger] below(storage(), s) != nb_marker(),
        forall|s: Seq<Text>| #[trigger] below(storage(), s) != ready_marker(),
        initialized_marker() != nb_marker(),
        initialized_marker() != ready_marker(),
        nb_marker() != ready_marker(),
        initialized_marker().within(runtime()),
        nb_marker().within(runtime()),
        ready_marker().within(runtime()),
{
    reveal_strlit("runtime");
    reveal_strlit("storage");
    reveal_strlit(".storage-upgrade-");
    reveal_strlit(".nocobase-initialized");
    reveal_strlit(".nb-desktop-initialized");
    reveal_strlit(".desktop-runtime-ready");
    let backup = storage_backup(id);
    assert(backup.parts[1][0] == '.');
    assert(runtime().parts[1][0] == 'r');
    assert(storage().parts[1] == runtime().parts[1]);
    assert(storage().parts[2][0] == 's');
    assert(initialized_marker().parts[2][1] == 'n');
    assert(initialized_marker().parts[2][2] == 'o');
    assert(nb_marker().parts[2][1] == 'n');
    assert(nb_marker().parts[2][2] == 'b');
    assert(ready_marker().parts[2][1] == 'd');
    assert forall|s: Seq<Text>| !(#[trigger] below(backup, s)).within(runtime()) by {
        assert(below(backup, s).parts[1] == backup.parts[1]);
        assert(below(backup, s).parts.subrange(0, 2)[1] == backup.parts[1]);
    }
    assert forall|s: Seq<Text>| !runtime().within(#[trigger] below(backup, s)) by {
        assert(below(backup, s).parts[1] == backup.parts[1]);
        if runtime().within(below(backup, s)) {
            assert(runtime().parts.subrange(0, below(backup, s).parts.len() as int)[1]
                == runtime().parts[1]);
        }
    }
    assert forall|s: Seq<Text>| !(#[trigger] below(backup, s)).within(storage()) by {
        assert(below(backup, s).parts[1] == backup.parts[1]);
        if below(backup, s).within(storage()) {
            assert(below(backup, s).parts.subrange(0, 3)[1] == backup.parts[1]);
        }
    }
    assert forall|s: Seq<Text>| !(#[trigger] below(storage(), s)).within(backup) by {
        assert(below(storage(), s).parts[1] == storage().parts[1]);
        assert(below(storage(), s).parts.subrange(0, 2)[1] == storage().parts[1]);
    }
    assert forall|s: Seq<Text>| (#[trigger] below(storage(), s)).within(runtime()) by {
        assert(below(storage(), s).parts.subrange(0, 2) =~= runtime().parts);
    }
    assert forall|s: Seq<Text>| (#[trigger] below(storage(), s)).within(storage()) by {
        assert(below(storage(), s).parts.subrange(0, 3) =~= storage().parts);
    }
    assert forall|s: Seq<Text>| (#[trigger] below(backup, s)).within(backup) by {
        assert(below(backup, s).parts.subrange(0, 2) =~= backup.parts);
    }
    assert forall|s: Seq<Text>|
        #[trigger] below(storage(), s) != initialized_marker() && below(storage(), s)
            != nb_marker() && below(storage(), s) != ready_marker() by {
        assert(below(storage(), s).parts[2] == storage().parts[2]);
        assert(initialized_marker().parts[2][0] == '.');
        assert(nb_marker().parts[2][0] == '.');
        assert(ready_marker().parts[2][0] == '.');
    }
    assert(initialized_marker().parts.subrange(0, 2) =~= runtime().parts);
    assert(nb_marker().parts.subrange(0, 2) =~= runtime().parts);
    assert(ready_marker().parts.subrange(0, 2) =~= runtime().parts);
}

/// What lay at `from` lies at `to` after the move.
proof fn lemma_moved_tree(d: Disk, from: PathView, to: PathView)
    ensures
        same_tree(d, from, moved(d, from, to), to),
{
    assert forall|s: Seq<Text>|
        same_at(d, #[trigger] below(from, s), moved(d, from, to), below(to, s)) by {
        let q = below(to, s);
        assert(q.parts.subrange(0, to.parts.len() as int) =~= to.parts);
        assert(q.parts.skip(to.parts.len() as int) =~= s);
    }
}

/// What lies in `storage` lies in the runtime.
proof fn lemma_storage_in_runtime(q: PathView)
    requires
        q.within(storage()),
    ensures
        q.within(runtime()),
{
    assert(q.parts.subrange(0, 2) =~= q.parts.subrange(0, 3).subrange(0, 2));
    assert(storage().parts.subrange(0, 2) =~= runtime().parts);
}

/// What changes only the runtime leaves the backup and all the rest alone.
proof fn lemma_runtime_only(d0: Disk, d: Disk, d2: Disk, id: Text, kept: Kept)
    requires
        keeps_the_rest(d0, d, id),
        set_aside(d0, d, id, kept),
        same_outside(d, d2, runtime()) || same_outside(d, d2, storage()),
    ensures
        keeps_the_rest(d0, d2, id),
        set_aside(d0, d2, id, kept),
{
    lemma_apart(id);
    let backup = storage_backup(id);
    assert(same_outside(d, d2, runtime())) by {
        if same_outside(d, d2, storage()) {
            assert forall|q: PathView| !#[trigger] q.within(runtime()) implies same_at(
                d,
                q,
                d2,
                q,
            ) by {
                if q.within(storage()) {
                    lemma_storage_in_runtime(q);
                }
            }
        }
    }
    assert forall|q: PathView|
        #![trigger d0.contains_key(q)]
        d0.contains_key(q) && !q.within(runtime()) && !q.within(backup) implies same_at(
        d0,
        q,
        d2,
        q,
    ) by {
        assert(same_at(d0, q, d, q));
        assert(same_at(d, q, d2, q));
    }
    lemma_set_aside(d0, d, d2, id, kept);
}

/// The backup is in order on every disk that agrees on it.
proof fn lemma_set_aside(d0: Disk, d: Disk, d2: Disk, id: Text, kept: Kept)
    requires
        set_aside(d0, d, id, kept),
        forall|s: Seq<Text>|
            #![trigger below(storage_backup(id), s)]
            same_at(d, below(storage_backup(id), s), d2, below(storage_backup(id), s)),
    ensures
        set_aside(d0, d2, id, kept),
{
    lemma_apart(id);
    let backup = storage_backup(id);
    if d0.contains_key(storage()) {
        assert forall|s: Seq<Text>|
            same_at(d0, #[trigger] below(storage(), s), d2, below(backup, s)) by {
            assert(same_at(d0, below(storage(), s), d, below(backup, s)));
            assert(same_at(d, below(backup, s), d2, below(backup, s)));
        }
    } else {
        assert forall|q: PathView| q.within(backup) implies !#[trigger] d2.contains_key(q) by {
            let s = q.parts.skip(2);
            assert(q.parts =~= q.parts.subrange(0, 2) + s);
            assert(below(backup, s) == q);
            assert(!d.contains_key(q));
            assert(same_at(d, q, d2, q));
        }
    }
}

/// Creating the directory of the runtime leaves the backup and all the rest alone.
proof fn lemma_create_runtime(d0: Disk, d: Disk, r: ReplyView, d2: Disk, id: Text, kept: Kept)
    requires
        keeps_the_rest(d0, d, id),
        set_aside(d0, d, id, kept),
        performs(EffectView::CreateDirs(runtime()), d, r, d2),
    ensures
        keeps_the_rest(d0, d2, id),
        set_aside(d0, d2, id, kept),
{
    lemma_apart(id);
    let backup = storage_backup(id);
    assert forall|q: PathView|
        #![trigger d0.contains_key(q)]
        d0.contains_key(q) && !q.within(runtime()) && !q.within(backup) implies same_at(
        d0,
        q,
        d2,
        q,
    ) by {
        assert(same_at(d0, q, d, q));
        assert(d.contains_key(q));
    }
    assert forall|s: Seq<Text>|
        #![trigger below(backup, s)]
        same_at(d, below(backup, s), d2, below(backup, s)) by {
        let q = below(backup, s);
        assert(d.contains_key(q) || !d.contains_key(q));
        assert(!runtime().within(q));
    }
    lemma_set_aside(d0, d, d2, id, kept);
}

/// Setting the user's files aside.
proof fn lemma_move_storage(d0: Disk, id: Text, kept: Kept)
    requires
        is_free(d0, storage_backup(id)),
        d0.contains_key(storage()),
        remembers(d0, kept),
    ensures
        keeps_the_rest(d0, moved(d0, storage(), storage_backup(id)), id),
        set_aside(d0, moved(d0, storage(), storage_backup(id)), id, kept),
{
    lemma_moved_tree(d0, storage(), storage_backup(id));
    let d2 = moved(d0, storage(), storage_backup(id));
    assert forall|q: PathView|
        #![trigger d0.contains_key(q)]
        d0.contains_key(q) && !q.within(runtime()) && !q.within(
            storage_backup(id),
        ) implies same_at(d0, q, d2, q) by {
        if q.within(storage()) {
            lemma_storage_in_runtime(q);
        }
    }
}

/// Bringing the user's files back.
proof fn lemma_restore_storage(d0: Disk, d: Disk, id: Text, kept: Kept)
    requires
        keeps_the_rest(d0, d, id),
        set_aside(d0, d, id, kept),
    ensures
        keeps_the_rest(d0, moved(d, storage_backup(id), storage()), id),
        brought_back(d0, moved(d, storage_backup(id), storage()), kept),
{
    let backup = storage_backup(id);
    let d2 = moved(d, backup, storage());
    lemma_moved_tree(d, backup, storage());
    if d0.contains_key(storage()) {
        assert forall|s: Seq<Text>|
            same_at(d0, #[trigger] below(storage(), s), d2, below(storage(), s)) by {
            assert(same_at(d0, below(storage(), s), d, below(backup, s)));
            assert(same_at(d, below(backup, s), d2, below(storage(), s)));
        }
    }
    assert forall|q: PathView|
        #![trigger d0.contains_key(q)]
        d0.contains_key(q) && !q.within(runtime()) && !q.within(backup) implies same_at(
        d0,
        q,
        d2,
        q,
    ) by {
        if q.within(storage()) {
            lemma_storage_in_runtime(q);
        }
        assert(same_at(d0, q, d, q));
    }
}

/// Leaving a mark in the runtime leaves the user's files and all the rest alone.
proof fn lemma_leave_mark(
    d0: Disk,
    d: Disk,
    r: ReplyView,
    d2: Disk,
    id: Text,
    kept: Kept,
    mark: PathView,
    text: Text,
)
    requires
        mark == initialized_marker() || mark == nb_marker() || mark == ready_marker(),
        keeps_the_rest(d0, d, id),
        brought_back(d0, d, kept),
        performs(EffectView::WriteText(mark, text), d, r, d2),
    ensures
        keeps_the_rest(d0, d2, id),
        brought_back(d0, d2, kept),
        forall|q: PathView| q != mark && d.contains_key(q) ==> #[trigger] d2.contains_key(q),
        r.done() is Ok ==> holds_text(d2, mark, text),
{
    lemma_apart(id);
    assert forall|q: PathView| q != mark && d.contains_key(q) implies #[trigger] d2.contains_key(
        q,
    ) by {
        assert(same_at(d, q, d2, q));
    }
    if d0.contains_key(storage()) {
        assert forall|s: Seq<Text>|
            same_at(d0, #[trigger] below(storage(), s), d2, below(storage(), s)) by {
            assert(same_at(d0, below(storage(), s), d, below(storage(), s)));
            assert(same_at(d, below(storage(), s), d2, below(storage(), s)));
        }
    }
    assert forall|q: PathView|
        #![trigger d0.contains_key(q)]
        d0.contains_key(q) && !q.within(runtime()) && !q.within(
            storage_backup(id),
        ) implies same_at(d0, q, d2, q) by {
        assert(same_at(d0, q, d, q));
        assert(same_at(d, q, d2, q));
    }
}

/// One step keeps what holds at every moment.
#[verifier::rlimit(60)]
proof fn lemma_sound_step(
    host: HostView,
    id: Text,
    phase: EnsurePhase,
    e: EffectView,
    d0: Disk,
    d: Disk,
    r: ReplyView,
    d2: Disk,
)
    requires
        is_free(d0, storage_backup(id)),
        sound(host, id, StepView::Perform(phase, e), d0, d),
        performs(e, d, r, d2),
    ensures
        sound(host, id, ensure_step(host, id, phase, r), d0, d2),
{
    lemma_apart(id);
    let backup = storage_backup(id);
    match phase {
        EnsurePhase::ReadMarker => {
            assert(r.text() matches Ok(t) ==> holds_text(d, ready_marker(), t));
        },
        EnsurePhase::ProbeInitialized => {},
        EnsurePhase::ProbeNb(_) => {},
        EnsurePhase::ProbeStorage(kept) => {
            assert(!d0.contains_key(storage()) ==> set_aside(d0, d, id, kept));
        },
        EnsurePhase::MoveStorage(kept) => {
            if r.done() is Ok {
                lemma_move_storage(d0, id, kept);
            }
        },
        EnsurePhase::ProbeRuntime(_) => {},
        EnsurePhase::RemoveRuntime(kept) => {
            lemma_runtime_only(d0, d, d2, id, kept);
        },
        EnsurePhase::CreateRuntime(kept) => {
            lemma_create_runtime(d0, d, r, d2, id, kept);
        },
        EnsurePhase::FindArchive(_) => {},
        EnsurePhase::Unpack(kept) => {
            lemma_runtime_only(d0, d, d2, id, kept);
        },
        EnsurePhase::ProbeBackup(kept) => {
            if !d.contains_key(backup) && d0.contains_key(storage()) {
                assert(below(storage(), Seq::empty()).parts =~= storage().parts);
                assert(below(backup, Seq::empty()).parts =~= backup.parts);
                assert(same_at(d0, below(storage(), Seq::empty()), d, below(backup, Seq::empty())));
                assert(false);
            }
        },
        EnsurePhase::ProbeUnpacked(_) => {},
        EnsurePhase::RemoveUnpacked(kept) => {
            lemma_runtime_only(d0, d, d2, id, kept);
        },
        EnsurePhase::RestoreStorage(kept) => {
            lemma_restore_storage(d0, d, id, kept);
        },
        EnsurePhase::MarkInitialized(kept) => {
            lemma_leave_mark(d0, d, r, d2, id, kept, initialized_marker(), "ok"@);
        },
        EnsurePhase::MarkNb(kept) => {
            lemma_leave_mark(d0, d, r, d2, id, kept, nb_marker(), "ok"@);
        },
        EnsurePhase::MarkReady(kept) => {
            lemma_leave_mark(d0, d, r, d2, id, kept, ready_marker(), host.version);
        },
    }
}

/// What holds at every moment holds after every run.
proof fn lemma_sound_run(host: HostView, id: Text, replies: Seq<ReplyView>, disks: Seq<Disk>)
    requires
        runs_on_disk(ensure_rule(host, id), ensure_first(host), replies, disks),
        is_free(disks[0], storage_backup(id)),
    ensures
        sound(
            host,
            id,
            run(ensure_rule(host, id), ensure_first(host), replies),
            disks[0],
            disks.last(),
        ),
    decreases replies.len(),
{
    let next = ensure_rule(host, id);
    let first = ensure_first(host);
    if replies.len() > 0 {
        lemma_shorter_run(next, first, replies, disks);
        lemma_sound_run(host, id, replies.drop_last(), disks.drop_last());
        if let StepView::Perform(phase, e) = run(next, first, replies.drop_last()) {
            lemma_sound_step(
                host,
                id,
                phase,
                e,
                disks[0],
                disks.drop_last().last(),
                replies.last(),
                disks.last(),
            );
        }
    }
}

/// The user's files survive every replacement of the runtime: after any number of replies,
/// also where the last one was a failure, they lie complete in `storage` or in the backup.
/// Nothing outside the runtime and the backup is lost or changed.
pub proof fn law_storage_is_never_lost(
    host: HostView,
    id: Text,
    replies: Seq<ReplyView>,
    disks: Seq<Disk>,
)
    requires
        runs_on_disk(ensure_rule(host, id), ensure_first(host), replies, disks),
        is_free(disks[0], storage_backup(id)),
    ensures
        files_safe(disks[0], disks.last(), id),
        keeps_the_rest(disks[0], disks.last(), id),
{
    lemma_sound_run(host, id, replies, disks);
}

/// After success the runtime is complete: the user's files lie in `storage` as before, the
/// marks of the old runtime are there, and the mark of the version is that of the
/// application. Where that mark was there to begin with, nothing has changed.
pub proof fn law_success_is_complete(
    host: HostView,
    id: Text,
    replies: Seq<ReplyView>,
    disks: Seq<Disk>,
)
    requires
        runs_on_disk(ensure_rule(host, id), ensure_first(host), replies, disks),
        is_free(disks[0], storage_backup(id)),
        run(ensure_rule(host, id), ensure_first(host), replies) matches StepView::Finished(Ok(_)),
    ensures
        run(ensure_rule(host, id), ensure_first(host), replies) == StepView::<
            EnsurePhase,
            PathView,
        >::Finished(Ok(runtime())),
        is_ready(disks[0], disks.last(), host.version),
        found_complete(host, replies) ==> disks.last() == disks[0],
{
    lemma_sound_run(host, id, replies, disks);
    if found_complete(host, replies) {
        let next = ensure_rule(host, id);
        let first = ensure_first(host);
        lemma_run_step(next, first, replies, 0);
        assert(run(next, first, replies.take(0)) == first);
        if replies.len() > 1 {
            assert(run(next, first, replies.take(1)) is Perform);
        }
    }
}

/// Where the procedure stands after all of `replies`.
pub open spec fn ensured(host: HostView, id: Text, replies: Seq<ReplyView>) -> EnsureView {
    run(ensure_rule(host, id), ensure_first(host), replies)
}

/// The `k`-th effect, counted from 0, unpacked the bundled archive into the runtime, from the
/// place where the reply before had found it.
pub open spec fn unpacked(host: HostView, id: Text, replies: Seq<ReplyView>, k: int) -> bool {
    &&& 1 <= k < replies.len()
    &&& asked(ensured(host, id, replies.take(k))) == Some(
        EffectView::Unpack(
            resource("runtime.tar.gz"@, replies[k - 1].answer() == Ok::<bool, Text>(true)),
            runtime(),
        ),
    )
    &&& replies[k].done() is Ok
}

/// The first reply was the mark of this version.
pub open spec fn found_complete(host: HostView, replies: Seq<ReplyView>) -> bool {
    replies.len() > 0 && (replies[0].text() matches Ok(t) && trimmed(t) == host.version)
}

/// What is known of the archive.
spec fn unpack_past(host: HostView, id: Text, replies: Seq<ReplyView>) -> bool {
    let n = replies.len();
    let done = exists|k: int| unpacked(host, id, replies, k);
    match ensured(host, id, replies) {
        StepView::Perform(phase, e) => match phase {
            EnsurePhase::ReadMarker => n == 0,
            EnsurePhase::Unpack(_) => n >= 1 && e == EffectView::Unpack(
                resource("runtime.tar.gz"@, replies[n - 1].answer() == Ok::<bool, Text>(true)),
                runtime(),
            ),
            EnsurePhase::ProbeBackup(_) => done,
            EnsurePhase::ProbeUnpacked(_) => done,
            EnsurePhase::RemoveUnpacked(_) => done,
            EnsurePhase::RestoreStorage(_) => done,
            EnsurePhase::MarkInitialized(_) => done,
            EnsurePhase::MarkNb(_) => done,
            EnsurePhase::MarkReady(_) => done,
            _ => true,
        },
        StepView::Finished(Ok(_)) => done || found_complete(host, replies),
        StepView::Finished(Err(_)) => true,
    }
}

proof fn lemma_unpack_past(host: HostView, id: Text, replies: Seq<ReplyView>)
    ensures
        unpack_past(host, id, replies),
    decreases replies.len(),
{
    if replies.len() > 0 {
        let before = replies.drop_last();
        let n = before.len() as int;
        lemma_unpack_past(host, id, before);
        assert(replies.take(n) =~= before);
        if exists|k: int| unpacked(host, id, before, k) {
            let k = choose|k: int| unpacked(host, id, before, k);
            assert(replies.take(k) =~= before.take(k));
            assert(unpacked(host, id, replies, k));
        }
        if let StepView::Perform(EnsurePhase::Unpack(_), _) = ensured(host, id, before) {
            if replies.last().done() is Ok {
                assert(unpacked(host, id, replies, n));
            }
        }
    }
}

/// The procedure succeeds only where the mark of this version was there to begin with, or the
/// bundled archive has been unpacked into the runtime.
pub proof fn law_success_means_unpacked(host: HostView, id: Text, replies: Seq<ReplyView>)
    requires
        ensured(host, id, replies) matches StepView::Finished(Ok(_)),
    ensures
        found_complete(host, replies) || exists|k: int| unpacked(host, id, replies, k),
{
    lemma_unpack_past(host, id, replies);
}

/// The effect that the procedure asks for writes the mark of the version only in the phase that
/// the procedure succeeds from.
proof fn lemma_ready_mark(host: HostView, id: Text, phase: EnsurePhase, r: ReplyView)
    ensures
        ensure_step(host, id, phase, r) matches StepView::Perform(phase2, e) ==> (e matches
            EffectView::WriteText(p, _) ==> (p == ready_marker() ==> phase2 is MarkReady)),
{
    lemma_apart(id);
}

/// A replacement that fails is never marked as complete: where the procedure ends with a
/// failure, writing the mark of the version has not succeeded.
pub proof fn law_failed_replacement_is_not_marked(
    host: HostView,
    id: Text,
    replies: Seq<ReplyView>,
    m: Text,
    k: int,
    t: Text,
)
    requires
        ensured(host, id, replies) == StepView::<EnsurePhase, PathView>::Finished(Err(m)),
        0 <= k < replies.len(),
        asked(ensured(host, id, replies.take(k))) == Some(EffectView::WriteText(ready_marker(), t)),
    ensures
        replies[k].done() is Err,
{
    let next = ensure_rule(host, id);
    let first = ensure_first(host);
    lemma_run_step(next, first, replies, k);
    lemma_run_prefix(next, first, replies, k + 1);
    if k > 0 {
        lemma_run_step(next, first, replies, k - 1);
        if let StepView::Perform(phase, _) = ensured(host, id, replies.take(k - 1)) {
            lemma_ready_mark(host, id, phase, replies[k - 1]);
        }
    } else {
        assert(ensured(host, id, replies.take(0)) == first);
    }
}

/// Unpacking, whether or not it succeeds, leaves every path alone that `archive` does not hold.
pub open spec fn unpacks_only(
    host: HostView,
    id: Text,
    replies: Seq<ReplyView>,
    disks: Seq<Disk>,
    archive: Disk,
) -> bool {
    forall|i: int, q: PathView|
        #![trigger replies.take(i), archive.contains_key(q)]
        0 <= i < replies.len() && !archive.contains_key(q) && (asked(
            ensured(host, id, replies.take(i)),
        ) matches Some(EffectView::Unpack(_, _))) ==> same_at(disks[i], q, disks[i + 1], q)
}

/// The mark of the version holds what is taken for `version`.
pub open spec fn is_current(d: Disk, version: Text) -> bool {
    exists|t: Text| trimmed(t) == version && #[trigger] holds_text(d, ready_marker(), t)
}

/// A text without its last character takes no more bytes.
proof fn lemma_shorter_text(t: Text)
    requires
        t.len() > 0,
    ensures
        encode_utf8(t.drop_last()).len() <= encode_utf8(t).len(),
    decreases t.len(),
{
    if t.len() > 1 {
        lemma_shorter_text(t.drop_first());
        assert(t.drop_last().drop_first() =~= t.drop_first().drop_last());
    }
}

/// A trimmed text takes no more bytes.
proof fn lemma_trimmed_bytes(t: Text)
    ensures
        encode_utf8(trimmed(t)).len() <= encode_utf8(t).len(),
    decreases t.len(),
{
    if t.len() > 0 && is_white_space(t.first()) {
        lemma_trimmed_bytes(t.drop_first());
    } else if t.len() > 0 && is_white_space(t.last()) {
        lemma_trimmed_bytes(t.drop_last());
        lemma_shorter_text(t);
    }
}

/// The procedure waits for the effect that belongs to its phase.
proof fn lemma_awaited(host: HostView, id: Text, replies: Seq<ReplyView>)
    ensures
        ensured(host, id, replies) matches StepView::Perform(phase, e) ==> awaited(
            host,
            id,
            phase,
            e,
        ),
    decreases replies.len(),
{
    if replies.len() > 0 {
        lemma_awaited(host, id, replies.drop_last());
    }
}

/// A step that does not succeed brings no current mark about.
proof fn lemma_stays_stale(
    host: HostView,
    id: Text,
    phase: EnsurePhase,
    e: EffectView,
    d: Disk,
    r: ReplyView,
    d2: Disk,
)
    requires
        awaited(host, id, phase, e),
        performs(e, d, r, d2),
        e is Unpack ==> same_at(d, ready_marker(), d2, ready_marker()),
        !is_current(d, host.version),
        !(ensure_step(host, id, phase, r) matches StepView::Finished(Ok(_))),
    ensures
        !is_current(d2, host.version),
{
    lemma_apart(id);
    let mark = ready_marker();
    if is_current(d2, host.version) {
        let t = choose|t: Text| trimmed(t) == host.version && #[trigger] holds_text(d2, mark, t);
        assert(below(storage(), Seq::empty()).parts =~= storage().parts);
        assert(below(storage_backup(id), Seq::empty()).parts =~= storage_backup(id).parts);
        if mark.within(storage()) {
            assert(mark.parts =~= mark.parts.subrange(0, 3));
        }
        if mark.within(storage_backup(id)) {
            let s = mark.parts.skip(2);
            assert(mark.parts =~= mark.parts.subrange(0, 2) + s);
            assert(below(storage_backup(id), s) == mark);
        }
        if phase is MarkReady {
            lemma_trimmed_bytes(t);
        }
        assert(same_at(d, mark, d2, mark));
        assert(holds_text(d, mark, t));
    }
}

proof fn lemma_stale_run(
    host: HostView,
    id: Text,
    replies: Seq<ReplyView>,
    disks: Seq<Disk>,
    archive: Disk,
)
    requires
        host.home_found,
        runs_on_disk(ensure_rule(host, id), ensure_first(host), replies, disks),
        unpacks_only(host, id, replies, disks, archive),
        !archive.contains_key(ready_marker()),
        replies.len() > 0,
        replies[0].text() is Err ==> !is_current(disks[0], host.version),
    ensures
        !(ensured(host, id, replies) matches StepView::Finished(Ok(_))) ==> !is_current(
            disks.last(),
            host.version,
        ),
    decreases replies.len(),
{
    broadcast use vstd::utf8::encode_utf8_decode_utf8;

    let next = ensure_rule(host, id);
    let first = ensure_first(host);
    let before = replies.drop_last();
    let n = before.len() as int;
    lemma_shorter_run(next, first, replies, disks);
    lemma_awaited(host, id, before);
    assert(replies.take(n) =~= before);
    if let StepView::Perform(phase, e) = ensured(host, id, before) {
        let r = replies.last();
        if n == 0 {
            assert(ensured(host, id, before) == first);
            if r.text() is Ok && is_current(disks.last(), host.version) {
                let old = choose|old: Text|
                    trimmed(old) == host.version && #[trigger] holds_text(
                        disks.last(),
                        ready_marker(),
                        old,
                    );
                let t = r.text()->Ok_0;
                assert(vstd::utf8::decode_utf8(encode_utf8(t)) == t);
                assert(vstd::utf8::decode_utf8(encode_utf8(old)) == old);
            }
        } else {
            assert forall|i: int, q: PathView|
                #![trigger before.take(i), archive.contains_key(q)]
                0 <= i < before.len() && !archive.contains_key(q) && (asked(
                    ensured(host, id, before.take(i)),
                ) matches Some(EffectView::Unpack(_, _))) implies same_at(
                disks.drop_last()[i],
                q,
                disks.drop_last()[i + 1],
                q,
            ) by {
                assert(before.take(i) =~= replies.take(i));
            }
            lemma_stale_run(host, id, before, disks.drop_last(), archive);
            if !(ensured(host, id, replies) matches StepView::Finished(Ok(_))) {
                assert(e is Unpack ==> same_at(
                    disks[n],
                    ready_marker(),
                    disks[n + 1],
                    ready_marker(),
                )) by {
                    assert(!archive.contains_key(ready_marker()));
                    assert(asked(ensured(host, id, replies.take(n))) == Some(e));
                }
                lemma_stays_stale(host, id, phase, e, disks[n], r, disks.last());
            }
        }
    }
}

/// A replacement that fails leaves no mark by which the runtime would be taken for that of this
/// version, at whatever point it fails: the next start replaces the runtime again. The archive
/// itself brings no such mark, and a mark that cannot be read is not that of this version.
pub proof fn law_failed_replacement_leaves_no_mark(
    host: HostView,
    id: Text,
    replies: Seq<ReplyView>,
    disks: Seq<Disk>,
    archive: Disk,
)
    requires
        host.home_found,
        runs_on_disk(ensure_rule(host, id), ensure_first(host), replies, disks),
        unpacks_only(host, id, replies, disks, archive),
        !archive.contains_key(ready_marker()),
        replies.len() > 0 && replies[0].text() is Err ==> !is_current(disks[0], host.version),
        ensured(host, id, replies) matches StepView::Finished(Err(_)),
    ensures
        forall|t: Text|
            trimmed(t) == host.version ==> !#[trigger] holds_text(disks.last(), ready_marker(), t),
{
    assert(replies.len() == 0 ==> ensured(host, id, replies) == ensure_first(host));
    lemma_stale_run(host, id, replies, disks, archive);
}

/// Wherever unpacking succeeds, it lays `archive` over the runtime. The paths of the archive are
/// those that its entries get there.
pub open spec fn unpacks(
    host: HostView,
    id: Text,
    replies: Seq<ReplyView>,
    disks: Seq<Disk>,
    archive: Disk,
) -> bool {
    forall|i: int|
        0 <= i < replies.len() && replies[i].done() is Ok && (asked(
            ensured(host, id, #[trigger] replies.take(i)),
        ) matches Some(EffectView::Unpack(_, _))) ==> laid_over(
            archive,
            disks[i],
            disks[i + 1],
            runtime(),
        )
}

/// The path lies in the runtime, below its directory.
pub open spec fn in_runtime(q: PathView) -> bool {
    q.within(runtime()) && q != runtime()
}

/// The path is that of one of the three marks.
pub open spec fn is_mark(q: PathView) -> bool {
    q == initialized_marker() || q == nb_marker() || q == ready_marker()
}

/// In the runtime lies what the archive holds, except at the marks and where the user's files
/// have been brought back.
pub open spec fn rest_is_unpacked(archive: Disk, d0: Disk, d: Disk) -> bool {
    forall|q: PathView|
        in_runtime(q) && !is_mark(q) && !(d0.contains_key(storage()) && q.within(storage()))
            ==> #[trigger] same_at(archive, q, d, q)
}

/// The mark says `ok` where the old runtime had it; otherwise it is what the archive holds there.
pub open spec fn mark_is_inherited(archive: Disk, d0: Disk, d: Disk, mark: PathView) -> bool {
    if d0.contains_key(mark) {
        holds_text(d, mark, "ok"@)
    } else {
        same_at(archive, mark, d, mark)
    }
}

/// The disk after the runtime has been replaced by that of `archive`.
pub open spec fn is_replaced(archive: Disk, d0: Disk, d: Disk, id: Text, version: Text) -> bool {
    &&& rest_is_unpacked(archive, d0, d)
    &&& d0.contains_key(storage()) ==> same_tree(d0, storage(), d, storage())
    &&& mark_is_inherited(archive, d0, d, initialized_marker())
    &&& mark_is_inherited(archive, d0, d, nb_marker())
    &&& holds_text(d, ready_marker(), version)
    &&& is_free(d, storage_backup(id))
}

/// Nothing lies in the runtime.
spec fn is_bare(d: Disk) -> bool {
    forall|q: PathView| in_runtime(q) ==> !#[trigger] d.contains_key(q)
}

/// In the runtime lies what the archive holds, except in `storage` where `but_storage` says so.
spec fn is_unpacked(archive: Disk, d: Disk, but_storage: bool) -> bool {
    forall|q: PathView|
        in_runtime(q) && !(but_storage && q.within(storage())) ==> #[trigger] same_at(
            archive,
            q,
            d,
            q,
        )
}

/// What is known of the runtime while the procedure waits in `phase`.
spec fn replaced_in(phase: EnsurePhase, archive: Disk, d0: Disk, d: Disk, id: Text) -> bool {
    let marking = rest_is_unpacked(archive, d0, d) && is_free(d, storage_backup(id));
    match phase {
        EnsurePhase::ProbeRuntime(_) => !d.contains_key(runtime()) ==> is_bare(d),
        EnsurePhase::CreateRuntime(_) => is_bare(d),
        EnsurePhase::FindArchive(_) => is_bare(d),
        EnsurePhase::Unpack(_) => is_bare(d),
        EnsurePhase::ProbeBackup(_) => is_unpacked(archive, d, false),
        EnsurePhase::ProbeUnpacked(_) => {
            d0.contains_key(storage()) && is_unpacked(archive, d, false)
        },
        EnsurePhase::RemoveUnpacked(_) => {
            d0.contains_key(storage()) && is_unpacked(archive, d, false)
        },
        EnsurePhase::RestoreStorage(_) => {
            d0.contains_key(storage()) && is_unpacked(archive, d, true)
        },
        EnsurePhase::MarkInitialized(kept) => {
            &&& kept.initialized
            &&& marking
            &&& same_at(archive, initialized_marker(), d, initialized_marker())
            &&& same_at(archive, nb_marker(), d, nb_marker())
        },
        EnsurePhase::MarkNb(kept) => {
            &&& kept.nb_initialized
            &&& marking
            &&& mark_is_inherited(archive, d0, d, initialized_marker())
            &&& same_at(archive, nb_marker(), d, nb_marker())
        },
        EnsurePhase::MarkReady(_) => {
            &&& marking
            &&& mark_is_inherited(archive, d0, d, initialized_marker())
            &&& mark_is_inherited(archive, d0, d, nb_marker())
        },
        _ => true,
    }
}

/// Leaving a mark leaves the rest of the runtime and the free backup alone.
proof fn lemma_mark_replaced(
    archive: Disk,
    d0: Disk,
    d: Disk,
    r: ReplyView,
    d2: Disk,
    id: Text,
    mark: PathView,
    text: Text,
)
    requires
        is_mark(mark),
        rest_is_unpacked(archive, d0, d),
        is_free(d, storage_backup(id)),
        performs(EffectView::WriteText(mark, text), d, r, d2),
    ensures
        rest_is_unpacked(archive, d0, d2),
        is_free(d2, storage_backup(id)),
        forall|q: PathView|
            is_mark(q) && q != mark && #[trigger] same_at(archive, q, d, q) ==> same_at(
                archive,
                q,
                d2,
                q,
            ),
        forall|q: PathView|
            is_mark(q) && q != mark && #[trigger] mark_is_inherited(archive, d0, d, q)
                ==> mark_is_inherited(archive, d0, d2, q),
        r.done() is Ok ==> holds_text(d2, mark, text),
{
    lemma_apart(id);
    let backup = storage_backup(id);
    assert forall|q: PathView|
        in_runtime(q) && !is_mark(q) && !(d0.contains_key(storage()) && q.within(
            storage(),
        )) implies #[trigger] same_at(archive, q, d2, q) by {
        assert(same_at(archive, q, d, q));
        assert(same_at(d, q, d2, q));
    }
    assert forall|q: PathView| q.within(backup) implies !#[trigger] d2.contains_key(q) by {
        let s = q.parts.skip(2);
        assert(q.parts =~= q.parts.subrange(0, 2) + s);
        assert(below(backup, s) == q);
        assert(same_at(d, q, d2, q));
    }
    assert forall|q: PathView|
        is_mark(q) && q != mark && #[trigger] same_at(archive, q, d, q) implies same_at(
        archive,
        q,
        d2,
        q,
    ) by {
        assert(same_at(d, q, d2, q));
    }
    assert forall|q: PathView|
        is_mark(q) && q != mark && #[trigger] mark_is_inherited(
            archive,
            d0,
            d,
            q,
        ) implies mark_is_inherited(archive, d0, d2, q) by {
        assert(same_at(d, q, d2, q));
    }
}

/// The phases until the directory of the runtime has been created leave nothing in it.
proof fn lemma_cleared(
    host: HostView,
    id: Text,
    phase: EnsurePhase,
    e: EffectView,
    archive: Disk,
    d0: Disk,
    d: Disk,
    r: ReplyView,
    d2: Disk,
)
    requires
        phase is ProbeStorage || phase is MoveStorage || phase is ProbeRuntime
            || phase is RemoveRuntime || phase is CreateRuntime || phase is FindArchive,
        is_tree(d0),
        awaited(host, id, phase, e),
        holds_in(phase, d0, d, id),
        replaced_in(phase, archive, d0, d, id),
        performs(e, d, r, d2),
    ensures
        ensure_step(host, id, phase, r) matches StepView::Perform(phase2, _) ==> replaced_in(
            phase2,
            archive,
            d0,
            d2,
            id,
        ),
{
    lemma_apart(id);
    if phase is ProbeStorage {
        if !d0.contains_key(runtime()) {
            assert forall|q: PathView| in_runtime(q) implies !#[trigger] d0.contains_key(q) by {
                assert(q.within(runtime()));
            }
        }
    } else if phase is MoveStorage {
        assert(below(storage(), Seq::empty()).parts =~= storage().parts);
        assert(storage().within(runtime()));
        assert(d0.contains_key(runtime()));
        assert(below(storage_backup(id), Seq::empty()).parts =~= storage_backup(id).parts);
        assert(!runtime().within(storage_backup(id)));
        assert(!runtime().within(storage())) by {
            assert(runtime().parts.len() == 2 && storage().parts.len() == 3);
        }
    } else if phase is RemoveRuntime {
        if r.done() is Ok {
            assert forall|q: PathView| in_runtime(q) implies !#[trigger] d2.contains_key(q) by {
                assert(q.within(runtime()));
            }
        }
    } else if phase is CreateRuntime {
        assert forall|q: PathView| in_runtime(q) implies !#[trigger] d2.contains_key(q) by {
            assert(!d.contains_key(q));
            if runtime().within(q) {
                assert(q.parts =~= runtime().parts);
            }
            assert(same_at(d, q, d2, q));
        }
    }
}

/// One step keeps what is known of the runtime.
#[verifier::rlimit(60)]
proof fn lemma_replaced_step(
    host: HostView,
    id: Text,
    phase: EnsurePhase,
    e: EffectView,
    archive: Disk,
    d0: Disk,
    d: Disk,
    r: ReplyView,
    d2: Disk,
)
    requires
        is_free(d0, storage_backup(id)),
        is_tree(d0),
        sound(host, id, StepView::Perform(phase, e), d0, d),
        sound(host, id, ensure_step(host, id, phase, r), d0, d2),
        replaced_in(phase, archive, d0, d, id),
        performs(e, d, r, d2),
        phase is Unpack && r.done() is Ok ==> laid_over(archive, d, d2, runtime()),
    ensures
        match ensure_step(host, id, phase, r) {
            StepView::Perform(phase2, _) => replaced_in(phase2, archive, d0, d2, id),
            StepView::Finished(Ok(_)) => phase is ReadMarker || is_replaced(
                archive,
                d0,
                d2,
                id,
                host.version,
            ),
            StepView::Finished(Err(_)) => true,
        },
{
    lemma_apart(id);
    let backup = storage_backup(id);
    assert(runtime().parts.len() == 2);
    assert(is_mark(initialized_marker()) && in_runtime(initialized_marker()));
    assert(is_mark(nb_marker()) && in_runtime(nb_marker()));
    match phase {
        EnsurePhase::ReadMarker => {},
        EnsurePhase::ProbeInitialized => {},
        EnsurePhase::ProbeNb(_) => {},
        EnsurePhase::ProbeStorage(_) => {
            lemma_cleared(host, id, phase, e, archive, d0, d, r, d2);
        },
        EnsurePhase::MoveStorage(_) => {
            lemma_cleared(host, id, phase, e, archive, d0, d, r, d2);
        },
        EnsurePhase::ProbeRuntime(_) => {
            lemma_cleared(host, id, phase, e, archive, d0, d, r, d2);
        },
        EnsurePhase::RemoveRuntime(_) => {
            lemma_cleared(host, id, phase, e, archive, d0, d, r, d2);
        },
        EnsurePhase::CreateRuntime(_) => {
            lemma_cleared(host, id, phase, e, archive, d0, d, r, d2);
        },
        EnsurePhase::FindArchive(_) => {
            lemma_cleared(host, id, phase, e, archive, d0, d, r, d2);
        },
        EnsurePhase::Unpack(_) => {
            if r.done() is Ok {
                assert forall|q: PathView| in_runtime(q) implies #[trigger] same_at(
                    archive,
                    q,
                    d2,
                    q,
                ) by {
                    assert(q.within(runtime()));
                    assert(!d.contains_key(q));
                }
            }
        },
        EnsurePhase::ProbeBackup(_) => {
            assert(below(backup, Seq::empty()).parts =~= backup.parts);
            assert(below(storage(), Seq::empty()).parts =~= storage().parts);
            if d0.contains_key(storage()) {
                assert(same_at(d0, below(storage(), Seq::empty()), d, below(backup, Seq::empty())));
            } else {
                assert(backup.within(backup));
            }
        },
        EnsurePhase::ProbeUnpacked(_) => {},
        EnsurePhase::RemoveUnpacked(_) => {
            if r.done() is Ok {
                assert forall|q: PathView| in_runtime(q) && !q.within(
                    storage(),
                ) implies #[trigger] same_at(archive, q, d2, q) by {
                    assert(same_at(archive, q, d, q));
                    assert(same_at(d, q, d2, q));
                }
            }
        },
        EnsurePhase::RestoreStorage(_) => {
            if r.done() is Ok {
                lemma_restored(archive, d0, d, id);
            }
        },
        EnsurePhase::MarkInitialized(_) => {
            lemma_mark_replaced(archive, d0, d, r, d2, id, initialized_marker(), "ok"@);
        },
        EnsurePhase::MarkNb(_) => {
            lemma_mark_replaced(archive, d0, d, r, d2, id, nb_marker(), "ok"@);
        },
        EnsurePhase::MarkReady(_) => {
            lemma_mark_replaced(archive, d0, d, r, d2, id, ready_marker(), host.version);
        },
    }
}

/// Bringing the user's files back leaves the rest of the runtime alone and nothing behind.
proof fn lemma_restored(archive: Disk, d0: Disk, d: Disk, id: Text)
    requires
        d0.contains_key(storage()),
        is_unpacked(archive, d, true),
    ensures
        rest_is_unpacked(archive, d0, moved(d, storage_backup(id), storage())),
        is_free(moved(d, storage_backup(id), storage()), storage_backup(id)),
        forall|q: PathView| #[trigger]
            is_mark(q) ==> same_at(archive, q, moved(d, storage_backup(id), storage()), q),
{
    lemma_apart(id);
    let backup = storage_backup(id);
    let d2 = moved(d, backup, storage());
    assert forall|q: PathView| in_runtime(q) && !q.within(storage()) implies #[trigger] same_at(
        archive,
        q,
        d2,
        q,
    ) by {
        assert(same_at(archive, q, d, q));
        if q.within(backup) {
            assert(q.parts.subrange(0, 2)[1] == backup.parts[1]);
            let s = q.parts.skip(2);
            assert(q.parts =~= q.parts.subrange(0, 2) + s);
            assert(below(backup, s) == q);
        }
    }
    assert forall|q: PathView| q.within(backup) implies !#[trigger] d2.contains_key(q) by {
        let s = q.parts.skip(2);
        assert(q.parts =~= q.parts.subrange(0, 2) + s);
        assert(below(backup, s) == q);
    }
    assert forall|q: PathView| #[trigger] is_mark(q) implies same_at(archive, q, d2, q) by {
        assert(in_runtime(q)) by {
            assert(q.parts.len() == 3);
            assert(runtime().parts.len() == 2);
        }
        if q.within(storage()) {
            assert(q.parts =~= q.parts.subrange(0, 3));
            assert(below(storage(), Seq::empty()).parts =~= storage().parts);
        }
    }
}

/// What is known of the runtime is known after every run.
proof fn lemma_replaced_run(
    host: HostView,
    id: Text,
    replies: Seq<ReplyView>,
    disks: Seq<Disk>,
    archive: Disk,
)
    requires
        runs_on_disk(ensure_rule(host, id), ensure_first(host), replies, disks),
        is_free(disks[0], storage_backup(id)),
        is_tree(disks[0]),
        unpacks(host, id, replies, disks, archive),
    ensures
        match ensured(host, id, replies) {
            StepView::Perform(phase, _) => replaced_in(phase, archive, disks[0], disks.last(), id),
            StepView::Finished(Ok(_)) => found_complete(host, replies) || is_replaced(
                archive,
                disks[0],
                disks.last(),
                id,
                host.version,
            ),
            StepView::Finished(Err(_)) => true,
        },
    decreases replies.len(),
{
    let next = ensure_rule(host, id);
    let first = ensure_first(host);
    if replies.len() > 0 {
        let before = replies.drop_last();
        let n = before.len() as int;
        lemma_shorter_run(next, first, replies, disks);
        assert forall|i: int|
            0 <= i < before.len() && before[i].done() is Ok && (asked(
                ensured(host, id, #[trigger] before.take(i)),
            ) matches Some(EffectView::Unpack(_, _))) implies laid_over(
            archive,
            disks.drop_last()[i],
            disks.drop_last()[i + 1],
            runtime(),
        ) by {
            assert(before.take(i) =~= replies.take(i));
        }
        lemma_replaced_run(host, id, before, disks.drop_last(), archive);
        lemma_sound_run(host, id, before, disks.drop_last());
        lemma_sound_run(host, id, replies, disks);
        lemma_unpack_past(host, id, before);
        assert(replies.take(n) =~= before);
        if let StepView::Perform(phase, e) = ensured(host, id, before) {
            lemma_replaced_step(
                host,
                id,
                phase,
                e,
                archive,
                disks[0],
                disks[n],
                replies.last(),
                disks.last(),
            );
        }
    }
}

/// A runtime that has been replaced is the one of the archive: everything in it is what the
/// archive holds there, except the user's files, which are as before, the marks of the old
/// runtime, which say `ok`, and the mark of the version. A mark that the old runtime did not have
/// is there only where the archive has it. Nothing is left behind in the backup.
pub proof fn law_replaced_runtime_is_that_of_the_archive(
    host: HostView,
    id: Text,
    replies: Seq<ReplyView>,
    disks: Seq<Disk>,
    archive: Disk,
)
    requires
        runs_on_disk(ensure_rule(host, id), ensure_first(host), replies, disks),
        is_free(disks[0], storage_backup(id)),
        is_tree(disks[0]),
        unpacks(host, id, replies, disks, archive),
        ensured(host, id, replies) matches StepView::Finished(Ok(_)),
        !found_complete(host, replies),
    ensures
        is_replaced(archive, disks[0], disks.last(), id, host.version),
        !disks[0].contains_key(storage()) ==> same_tree(
            archive,
            storage(),
            disks.last(),
            storage(),
        ),
        disks.last().contains_key(initialized_marker()) <==> disks[0].contains_key(
            initialized_marker(),
        ) || archive.contains_key(initialized_marker()),
        disks.last().contains_key(nb_marker()) <==> disks[0].contains_key(nb_marker())
            || archive.contains_key(nb_marker()),
{
    lemma_replaced_run(host, id, replies, disks, archive);
    lemma_apart(id);
    if !disks[0].contains_key(storage()) {
        assert forall|s: Seq<Text>|
            same_at(archive, #[trigger] below(storage(), s), disks.last(), below(storage(), s)) by {
            let q = below(storage(), s);
            assert(q.parts.len() >= 3);
            assert(runtime().parts.len() == 2);
            assert(in_runtime(q));
        }
    }
}

/// The procedure fails only where something has failed: the home directory or that of the
/// resources is not known, or the reply to an effect was the failure that it ends with.
pub proof fn law_failure_has_a_cause(
    host: HostView,
    id: Text,
    replies: Seq<ReplyView>,
    disks: Seq<Disk>,
    m: Text,
)
    requires
        runs_on_disk(ensure_rule(host, id), ensure_first(host), replies, disks),
        is_free(disks[0], storage_backup(id)),
        run(ensure_rule(host, id), ensure_first(host), replies) == StepView::<
            EnsurePhase,
            PathView,
        >::Finished(Err(m)),
    ensures
        (!host.home_found && m == home_unknown()) || host.resources == Err::<(), Text>(m) || (
        replies.len() > 0 && replies.last() == ReplyView::Done(Err(m))),
{
    if replies.len() > 0 {
        lemma_shorter_run(ensure_rule(host, id), ensure_first(host), replies, disks);
        lemma_sound_run(host, id, replies.drop_last(), disks.drop_last());
    }
}

/// A runtime that is complete is left alone: where the mark of the version is readable, the
/// procedure succeeds at once and changes nothing.
pub proof fn law_complete_runtime_is_left_alone(
    host: HostView,
    id: Text,
    d0: Disk,
    d: Disk,
    r: ReplyView,
    d2: Disk,
)
    requires
        host.home_found,
        trimmed(host.version) == host.version,
        is_ready(d0, d, host.version),
        performs(EffectView::ReadText(ready_marker()), d, r, d2),
        r matches ReplyView::Text(Ok(_)),
    ensures
        ensure_first(host) == StepView::<EnsurePhase, PathView>::Perform(
            EnsurePhase::ReadMarker,
            EffectView::ReadText(ready_marker()),
        ),
        ensure_step(host, id, EnsurePhase::ReadMarker, r) == StepView::<
            EnsurePhase,
            PathView,
        >::Finished(Ok(runtime())),
        d2 == d,
{
    broadcast use vstd::utf8::encode_utf8_decode_utf8;

    let t = r.text()->Ok_0;
    if holds_text(d, ready_marker(), host.version) {
        assert(vstd::utf8::decode_utf8(encode_utf8(t)) == t);
        assert(vstd::utf8::decode_utf8(encode_utf8(host.version)) == host.version);
    } else {
        let old = choose|old: Text|
            trimmed(old) == host.version && holds_text(d, ready_marker(), old);
        assert(vstd::utf8::decode_utf8(encode_utf8(t)) == t);
        assert(vstd::utf8::decode_utf8(encode_utf8(old)) == old);
    }
}

/// The configuration, the log and the launcher lie outside the runtime and outside every
/// backup, so replacing the runtime never touches them.
pub proof fn law_other_files_lie_apart(id: Text)
    ensures
        !config_file().within(runtime()) && !config_file().within(storage_backup(id)),
        !log_file().within(runtime()) && !log_file().within(storage_backup(id)),
        !launcher_file().within(runtime()) && !launcher_file().within(storage_backup(id)),
        !storage_backup(id).within(runtime()),
{
    reveal_strlit("runtime");
    reveal_strlit("database.json");
    reveal_strlit("logs");
    reveal_strlit("bin");
    reveal_strlit(".storage-upgrade-");
    assert(runtime().parts[1][0] == 'r');
    assert(storage_backup(id).parts[1][0] == '.');
    assert(config_file().parts[1][0] == 'd');
    assert(log_file().parts[1] == log_dir().parts[1]);
    assert(log_dir().parts[1][0] == 'l');
    assert(launcher_file().parts[1] == bin_dir().parts[1]);
    assert(bin_dir().parts[1][0] == 'b');
    assert(config_file().parts.subrange(0, 2)[1] == config_file().parts[1]);
    assert(log_file().parts.subrange(0, 2)[1] == log_file().parts[1]);
    assert(launcher_file().parts.subrange(0, 2)[1] == launcher_file().parts[1]);
    assert(storage_backup(id).parts.subrange(0, 2)[1] == storage_backup(id).parts[1]);
}

} // verus!
