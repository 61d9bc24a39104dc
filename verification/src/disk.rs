//! A model of the file system, by which the procedures' laws are stated.
use vstd::prelude::*;
use vstd::utf8::encode_utf8;

use crate::effect::{run, EffectView, ReplyView, StepView};
use crate::path::PathView;
use crate::text::Text;

verus! {

/// What lies at a path.
pub enum Node {
    Directory,
    File(Seq<u8>),
}

/// All that lies on the disk.
pub type Disk = Map<PathView, Node>;

/// The path that `suffix` leads to from `dir`.
pub open spec fn below(dir: PathView, suffix: Seq<Text>) -> PathView {
    PathView { root: dir.root, parts: dir.parts + suffix }
}

/// The same lies at `p` on the one disk as at `q` on the other.
pub open spec fn same_at(one: Disk, p: PathView, other: Disk, q: PathView) -> bool {
    &&& one.contains_key(p) == other.contains_key(q)
    &&& one.contains_key(p) ==> one[p] == other[q]
}

/// At `a` and below it lies on the one disk what lies at `b` and below it on the other.
pub open spec fn same_tree(one: Disk, a: PathView, other: Disk, b: PathView) -> bool {
    forall|s: Seq<Text>| same_at(one, #[trigger] below(a, s), other, below(b, s))
}

/// Nothing lies at `p` or below it.
pub open spec fn is_free(d: Disk, p: PathView) -> bool {
    forall|q: PathView| q.within(p) ==> !#[trigger] d.contains_key(q)
}

/// What lies at a path lies in directories that are there too.
pub open spec fn is_tree(d: Disk) -> bool {
    forall|p: PathView, q: PathView|
        #![trigger d.contains_key(q), q.within(p)]
        d.contains_key(q) && q.within(p) ==> d.contains_key(p)
}

/// The two disks hold the same, except at `p` and below it.
pub open spec fn same_outside(one: Disk, other: Disk, p: PathView) -> bool {
    forall|q: PathView| !#[trigger] q.within(p) ==> same_at(one, q, other, q)
}

/// In `dir` the disk `d2` holds all that `archive` holds there, and for the rest what `d` held.
pub open spec fn laid_over(archive: Disk, d: Disk, d2: Disk, dir: PathView) -> bool {
    forall|q: PathView| #[trigger]
        q.within(dir) ==> if archive.contains_key(q) {
            same_at(archive, q, d2, q)
        } else {
            same_at(d, q, d2, q)
        }
}

/// The disk after what lies at `from` has moved to `to`.
pub open spec fn moved(d: Disk, from: PathView, to: PathView) -> Disk {
    let origin = |q: PathView| below(from, q.parts.skip(to.parts.len() as int));
    Map::new(
        |q: PathView|
            if q.within(to) {
                d.contains_key(origin(q))
            } else {
                !q.within(from) && d.contains_key(q)
            },
        |q: PathView|
            if q.within(to) {
                d[origin(q)]
            } else {
                d[q]
            },
    )
}

/// What a write of `bytes` to `p` that failed may have left there: what lay there before, or a
/// file that lacks some of the bytes at its end.
pub open spec fn partly_written(d: Disk, d2: Disk, p: PathView, bytes: Seq<u8>) -> bool {
    ||| same_at(d, p, d2, p)
    ||| d2.contains_key(p) && (d2[p] matches Node::File(b) && b.is_prefix_of(bytes) && b.len()
        < bytes.len())
}

/// The disk `d` may have become `d2`, with the reply `r`, when the effect `e` was performed.
/// What fails may have been done in part; what is not about files may do anything. Removing
/// only removes, what is created on the way to a directory is a directory, and opening the log
/// keeps what it holds.
pub open spec fn performs(e: EffectView, d: Disk, r: ReplyView, d2: Disk) -> bool {
    match e {
        EffectView::Exists(p) => r == ReplyView::Answer(d.contains_key(p)) && d2 == d,
        EffectView::ReadText(p) => d2 == d && match r {
            ReplyView::Text(Ok(t)) => d.contains_key(p) && d[p] == Node::File(encode_utf8(t)),
            ReplyView::Text(Err(_)) => true,
            _ => false,
        },
        EffectView::ReadBytes(p) => d2 == d && match r {
            ReplyView::Bytes(Ok(b)) => d.contains_key(p) && d[p] == Node::File(b),
            ReplyView::Bytes(Err(_)) => true,
            _ => false,
        },
        EffectView::CreateDirs(p) => {
            &&& r is Done
            &&& forall|q: PathView| #[trigger]
                d.contains_key(q) || !p.within(q) ==> same_at(d, q, d2, q)
            &&& forall|q: PathView| #[trigger]
                d2.contains_key(q) && !d.contains_key(q) ==> d2[q] == Node::Directory
            &&& r.done() is Ok ==> d2.contains_key(p) && d2[p] == Node::Directory
        },
        EffectView::RemoveTree(p) => {
            &&& r is Done
            &&& same_outside(d, d2, p)
            &&& forall|q: PathView| #[trigger] d2.contains_key(q) ==> same_at(d, q, d2, q)
            &&& r.done() is Ok ==> is_free(d2, p)
        },
        EffectView::Rename(a, b) => {
            &&& r is Done
            &&& d2 == if r.done() is Ok {
                moved(d, a, b)
            } else {
                d
            }
        },
        EffectView::WriteText(p, t) => {
            &&& r is Done
            &&& forall|q: PathView| q != p ==> #[trigger] same_at(d, q, d2, q)
            &&& if r.done() is Ok {
                d2.contains_key(p) && d2[p] == Node::File(encode_utf8(t))
            } else {
                partly_written(d, d2, p, encode_utf8(t))
            }
        },
        EffectView::WriteBytes(p, b) => {
            &&& r is Done
            &&& forall|q: PathView| q != p ==> #[trigger] same_at(d, q, d2, q)
            &&& if r.done() is Ok {
                d2.contains_key(p) && d2[p] == Node::File(b)
            } else {
                partly_written(d, d2, p, b)
            }
        },
        EffectView::SetMode(_, _) => r is Done && d2 == d,
        EffectView::Unpack(_, p) => r is Done && same_outside(d, d2, p),
        EffectView::OpenLog(p) => {
            &&& r is Done
            &&& forall|q: PathView| q != p ==> #[trigger] same_at(d, q, d2, q)
            &&& d.contains_key(p) ==> same_at(d, p, d2, p)
            &&& !d.contains_key(p) && d2.contains_key(p) ==> d2[p] == Node::File(Seq::empty())
            &&& r.done() is Ok ==> d2.contains_key(p)
        },
        EffectView::EncodeConfig(_) => r is Bytes && d2 == d,
        EffectView::DecodeConfig(_) => r is Config && d2 == d,
        _ => true,
    }
}

/// The effect is one of those of which it is known what they do to files.
pub open spec fn is_about_files(e: EffectView) -> bool {
    match e {
        EffectView::Exists(_) => true,
        EffectView::ReadText(_) => true,
        EffectView::ReadBytes(_) => true,
        EffectView::CreateDirs(_) => true,
        EffectView::RemoveTree(_) => true,
        EffectView::Rename(_, _) => true,
        EffectView::WriteText(_, _) => true,
        EffectView::WriteBytes(_, _) => true,
        EffectView::SetMode(_, _) => true,
        EffectView::Unpack(_, _) => true,
        EffectView::OpenLog(_) => true,
        EffectView::EncodeConfig(_) => true,
        EffectView::DecodeConfig(_) => true,
        _ => false,
    }
}

/// `replies` are what a disk answers to the procedure, and `disks` what it holds before the
/// first reply and after each.
pub open spec fn runs_on_disk<S, T>(
    next: spec_fn(S, ReplyView) -> StepView<S, T>,
    first: StepView<S, T>,
    replies: Seq<ReplyView>,
    disks: Seq<Disk>,
) -> bool {
    &&& disks.len() == replies.len() + 1
    &&& forall|i: int|
        0 <= i < replies.len() ==> (run(next, first, #[trigger] replies.take(i)) matches
            StepView::Perform(_, e) && performs(e, disks[i], replies[i], disks[i + 1]))
}

/// A run without its last reply is a run.
pub proof fn lemma_shorter_run<S, T>(
    next: spec_fn(S, ReplyView) -> StepView<S, T>,
    first: StepView<S, T>,
    replies: Seq<ReplyView>,
    disks: Seq<Disk>,
)
    requires
        runs_on_disk(next, first, replies, disks),
        replies.len() > 0,
    ensures
        runs_on_disk(next, first, replies.drop_last(), disks.drop_last()),
        run(next, first, replies.drop_last()) matches StepView::Perform(s, e) && performs(
            e,
            disks.drop_last().last(),
            replies.last(),
            disks.last(),
        ) && run(next, first, replies) == next(s, replies.last()),
{
    let n = replies.len() - 1;
    assert(replies.take(n) =~= replies.drop_last());
    assert forall|i: int| 0 <= i < n implies (run(
        next,
        first,
        #[trigger] replies.drop_last().take(i),
    ) matches StepView::Perform(_, e) && performs(
        e,
        disks.drop_last()[i],
        replies.drop_last()[i],
        disks.drop_last()[i + 1],
    )) by {
        assert(replies.drop_last().take(i) =~= replies.take(i));
    }
}

} // verus!
