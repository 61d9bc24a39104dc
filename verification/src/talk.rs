//! The talk between a procedure and the world: what is asked, what is replied, and where it leads.
use vstd::prelude::*;

use crate::effect::{asked, follow, run, EffectView, ReplyView, StepView};
use crate::text::Text;

verus! {

/// Effects, each with the reply to it, in their order.
pub type Talk = Seq<(EffectView, ReplyView)>;

/// From `step` on the procedure asks for exactly the effects of `talk`, one after the other, and
/// with the replies to them it gets to `end`.
pub open spec fn leads<S, T>(
    next: spec_fn(S, ReplyView) -> StepView<S, T>,
    step: StepView<S, T>,
    talk: Talk,
    end: StepView<S, T>,
) -> bool
    decreases talk.len(),
{
    if talk.len() == 0 {
        step == end
    } else {
        match step {
            StepView::Perform(s, e) => e == talk[0].0 && leads(
                next,
                next(s, talk[0].1),
                talk.drop_first(),
                end,
            ),
            StepView::Finished(_) => false,
        }
    }
}

/// The procedure asks for exactly the effects of `talk` and ends with `result`.
pub open spec fn ends<S, T>(
    next: spec_fn(S, ReplyView) -> StepView<S, T>,
    step: StepView<S, T>,
    talk: Talk,
    result: Result<T, Text>,
) -> bool {
    leads(next, step, talk, StepView::<S, T>::Finished(result))
}

/// The replies of a talk.
pub open spec fn replies_of(talk: Talk) -> Seq<ReplyView> {
    talk.map_values(|x: (EffectView, ReplyView)| x.1)
}

/// One exchange, and then the rest.
pub proof fn lemma_first<S, T>(
    next: spec_fn(S, ReplyView) -> StepView<S, T>,
    s: S,
    e: EffectView,
    r: ReplyView,
    rest: Talk,
    end: StepView<S, T>,
)
    requires
        leads(next, next(s, r), rest, end),
    ensures
        leads(next, StepView::Perform(s, e), seq![(e, r)] + rest, end),
{
    let talk = seq![(e, r)] + rest;
    assert(talk.drop_first() =~= rest);
    assert(talk[0] == (e, r));
}

/// One talk after the other is one talk.
pub proof fn lemma_joined<S, T>(
    next: spec_fn(S, ReplyView) -> StepView<S, T>,
    a: StepView<S, T>,
    one: Talk,
    b: StepView<S, T>,
    other: Talk,
    c: StepView<S, T>,
)
    requires
        leads(next, a, one, b),
        leads(next, b, other, c),
    ensures
        leads(next, a, one + other, c),
    decreases one.len(),
{
    if one.len() == 0 {
        assert(one + other =~= other);
    } else {
        let s = a->Perform_0;
        lemma_joined(next, next(s, one[0].1), one.drop_first(), b, other, c);
        assert((one + other).drop_first() =~= one.drop_first() + other);
        assert((one + other)[0] == one[0]);
    }
}

/// A procedure within another one talks there as it does alone: `wrap` turns its steps into those
/// of the other, and `lift` its states.
pub proof fn lemma_within<S, T, S2, T2>(
    inner: spec_fn(S, ReplyView) -> StepView<S, T>,
    outer: spec_fn(S2, ReplyView) -> StepView<S2, T2>,
    lift: spec_fn(S) -> S2,
    wrap: spec_fn(StepView<S, T>) -> StepView<S2, T2>,
    a: StepView<S, T>,
    talk: Talk,
    b: StepView<S, T>,
)
    requires
        forall|s: S, e: EffectView|
            #![trigger wrap(StepView::<S, T>::Perform(s, e))]
            wrap(StepView::<S, T>::Perform(s, e)) == StepView::<S2, T2>::Perform(lift(s), e),
        forall|s: S, r: ReplyView|
            #![trigger inner(s, r)]
            outer(lift(s), r) == wrap(inner(s, r)),
        leads(inner, a, talk, b),
    ensures
        leads(outer, wrap(a), talk, wrap(b)),
    decreases talk.len(),
{
    if talk.len() > 0 {
        let s = a->Perform_0;
        let e = a->Perform_1;
        assert(a == StepView::<S, T>::Perform(s, e));
        let r = talk[0].1;
        lemma_within(inner, outer, lift, wrap, inner(s, r), talk.drop_first(), b);
        assert(wrap(a) == StepView::<S2, T2>::Perform(lift(s), e));
        assert(outer(lift(s), r) == wrap(inner(s, r)));
    }
}

proof fn lemma_run_front<S, T>(
    next: spec_fn(S, ReplyView) -> StepView<S, T>,
    step: StepView<S, T>,
    replies: Seq<ReplyView>,
)
    requires
        replies.len() > 0,
    ensures
        run(next, step, replies) == run(next, follow(next, step, replies[0]), replies.drop_first()),
    decreases replies.len(),
{
    let before = replies.drop_last();
    if before.len() == 0 {
        assert(replies.drop_first() =~= Seq::<ReplyView>::empty());
        assert(run(next, step, before) == step);
    } else {
        lemma_run_front(next, step, before);
        assert(replies.drop_first().drop_last() =~= before.drop_first());
    }
}

/// A talk is a run: with the replies of its first `i` exchanges the procedure comes to ask for the
/// effect of the next one, and with all of them it gets to the end of the talk.
pub proof fn law_talk_is_a_run<S, T>(
    next: spec_fn(S, ReplyView) -> StepView<S, T>,
    step: StepView<S, T>,
    talk: Talk,
    end: StepView<S, T>,
    i: int,
)
    requires
        leads(next, step, talk, end),
        0 <= i <= talk.len(),
    ensures
        i < talk.len() ==> asked(run(next, step, replies_of(talk).take(i))) == Some(talk[i].0),
        i == talk.len() ==> run(next, step, replies_of(talk).take(i)) == end,
    decreases i,
{
    let replies = replies_of(talk).take(i);
    if i > 0 {
        let r = talk[0].1;
        let s = step->Perform_0;
        law_talk_is_a_run(next, next(s, r), talk.drop_first(), end, i - 1);
        assert(replies_of(talk.drop_first()).take(i - 1) =~= replies.drop_first());
        lemma_run_front(next, step, replies);
        assert(replies[0] == r);
    } else {
        assert(run(next, step, replies) == step);
    }
}

/// The failure that the reply tells of the effect, where it tells one that matters.
pub open spec fn failure_of(e: EffectView, r: ReplyView) -> Option<Text> {
    match (e, r) {
        (EffectView::CreateDirs(_), ReplyView::Done(Err(m))) => Some(m),
        (EffectView::RemoveTree(_), ReplyView::Done(Err(m))) => Some(m),
        (EffectView::Rename(_, _), ReplyView::Done(Err(m))) => Some(m),
        (EffectView::WriteText(_, _), ReplyView::Done(Err(m))) => Some(m),
        (EffectView::WriteBytes(_, _), ReplyView::Done(Err(m))) => Some(m),
        (EffectView::SetMode(_, _), ReplyView::Done(Err(m))) => Some(m),
        (EffectView::Unpack(_, _), ReplyView::Done(Err(m))) => Some(m),
        (EffectView::OpenLog(_), ReplyView::Done(Err(m))) => Some(m),
        (EffectView::Spawn(_), ReplyView::Done(Err(m))) => Some(m),
        (EffectView::LockChild, ReplyView::Done(Err(m))) => Some(m),
        (EffectView::KillTaken, ReplyView::Done(Err(m))) => Some(m),
        (EffectView::WaitTaken, ReplyView::Done(Err(m))) => Some(m),
        (EffectView::Navigate(_, _), ReplyView::Done(Err(m))) => Some(m),
        (EffectView::FocusWindow(_), ReplyView::Done(Err(m))) => Some(m),
        (EffectView::OpenWindow(_), ReplyView::Done(Err(m))) => Some(m),
        (EffectView::Display(_), ReplyView::Text(Err(m))) => Some(m),
        (EffectView::ReadBytes(_), ReplyView::Bytes(Err(m))) => Some(m),
        (EffectView::EncodeConfig(_), ReplyView::Bytes(Err(m))) => Some(m),
        (EffectView::DecodeConfig(_), ReplyView::Config(Err(m))) => Some(m),
        (EffectView::Run(_), ReplyView::Status(Err(m))) => Some(m),
        (EffectView::PollChild, ReplyView::Child(Err(m))) => Some(m),
        (EffectView::PollTaken, ReplyView::Child(Err(m))) => Some(m),
        _ => None,
    }
}

/// The procedure, where it waits, ends with every failure that it is told.
pub open spec fn heeds<S, T>(
    next: spec_fn(S, ReplyView) -> StepView<S, T>,
    step: StepView<S, T>,
) -> bool {
    match step {
        StepView::Perform(s, e) => forall|r: ReplyView|
            #![trigger next(s, r)]
            failure_of(e, r) matches Some(m) ==> next(s, r) == StepView::<S, T>::Finished(Err(m)),
        StepView::Finished(_) => true,
    }
}

/// What holds of the first step and of every step after a reply holds of every run.
pub proof fn lemma_heeds<S, T>(
    next: spec_fn(S, ReplyView) -> StepView<S, T>,
    first: StepView<S, T>,
    replies: Seq<ReplyView>,
)
    requires
        heeds(next, first),
        forall|s: S, r: ReplyView| #![trigger next(s, r)] heeds(next, next(s, r)),
    ensures
        heeds(next, run(next, first, replies)),
    decreases replies.len(),
{
    if replies.len() > 0 {
        lemma_heeds(next, first, replies.drop_last());
        if let StepView::Perform(s, _) = run(next, first, replies.drop_last()) {
            assert(heeds(next, next(s, replies.last())));
        }
    }
}

/// A procedure within another one ends the other with its failures, where `wrap` hands them on.
pub proof fn lemma_heeds_within<S, T, S2, T2>(
    inner: spec_fn(S, ReplyView) -> StepView<S, T>,
    outer: spec_fn(S2, ReplyView) -> StepView<S2, T2>,
    lift: spec_fn(S) -> S2,
    wrap: spec_fn(StepView<S, T>) -> StepView<S2, T2>,
    s: S,
    e: EffectView,
)
    requires
        forall|r: ReplyView|
            #![trigger inner(s, r)]
            outer(lift(s), r) == wrap(inner(s, r)),
        forall|m: Text|
            #![trigger wrap(StepView::<S, T>::Finished(Err(m)))]
            wrap(StepView::<S, T>::Finished(Err(m))) == StepView::<S2, T2>::Finished(Err(m)),
        heeds(inner, StepView::<S, T>::Perform(s, e)),
    ensures
        heeds(outer, StepView::<S2, T2>::Perform(lift(s), e)),
{
    assert forall|r: ReplyView|
        #![trigger outer(lift(s), r)]
        failure_of(e, r) is Some implies outer(lift(s), r) == StepView::<S2, T2>::Finished(
        Err(failure_of(e, r)->0),
    ) by {
        assert(inner(s, r) == StepView::<S, T>::Finished(Err(failure_of(e, r)->0)));
    }
}

} // verus!
