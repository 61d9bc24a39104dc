//! Waiting until the local server answers.
use vstd::prelude::*;

use crate::effect::{
    fails, run, succeeds, Effect, EffectView, HttpProbe, ProbeView, Reply, ReplyView, Step,
    StepView,
};
use crate::layout::APP_PORT;
use crate::text::{contains, holds_part, occurs_at, starts_with, Text};
use crate::text_law::{law_held_part_splits_the_text, law_part_stands_between};

verus! {

/// How often the server is asked.
pub const API_TRIES: u32 = 300;

/// What the procedure waits for: the response to one of the requests, counted from 0, or the
/// end of the pause behind it.
#[derive(Clone, Copy, Debug, PartialEq, Eq, Structural)]
pub enum ApiPhase {
    Ask(u32),
    Pause(u32),
}

impl View for ApiPhase {
    type V = ApiPhase;

    open spec fn view(&self) -> ApiPhase {
        *self
    }
}

/// The response of a server that has loaded its data sources: a success that holds JSON, and
/// speaks neither of a pending command nor of maintenance.
pub open spec fn is_ready_response(response: Text) -> bool {
    &&& occurs_at(response, "HTTP/1.1 200"@, 0)
    &&& holds_part(response, "application/json"@)
    &&& !holds_part(response, "APP_COMMANDING"@)
    &&& !holds_part(response, "\"maintaining\":true"@)
}

/// Whether a server that responds so has loaded its data sources.
pub fn api_ready(response: &str) -> (r: bool)
    ensures
        r == is_ready_response(response@),
{
    starts_with(response, "HTTP/1.1 200") && contains(response, "application/json") && !contains(
        response,
        "APP_COMMANDING",
    ) && !contains(response, "\"maintaining\":true")
}

/// The request for the language of the application.
pub open spec fn language_request() -> ProbeView {
    ProbeView {
        port: APP_PORT,
        connect_millis: 300,
        read_millis: 1000,
        request: "GET /api/app:getLang HTTP/1.1\r\nHost: 127.0.0.1\r\nConnection: close\r\n\r\n"@,
    }
}

/// Ask the server for the `n`-th time.
pub open spec fn ask(n: u32) -> StepView<ApiPhase, ()> {
    StepView::Perform(ApiPhase::Ask(n), EffectView::Request(language_request()))
}

/// The message where the server never became ready.
pub open spec fn never_ready() -> Text {
    "NocoBase 在 5 分钟内未完成数据源加载，请查看运行日志"@
}

/// How waiting goes on from `phase` when the reply `r` has come.
pub open spec fn api_step(phase: ApiPhase, r: ReplyView) -> StepView<ApiPhase, ()> {
    match phase {
        ApiPhase::Ask(n) => if r.text() matches Ok(t) && is_ready_response(t) {
            succeeds(())
        } else {
            StepView::Perform(ApiPhase::Pause(n), EffectView::Sleep(1000))
        },
        ApiPhase::Pause(n) => if n + 1 < API_TRIES {
            ask((n + 1) as u32)
        } else {
            fails(never_ready())
        },
    }
}

fn ask_step(n: u32) -> (r: Step<ApiPhase, ()>)
    ensures
        r@ == ask(n),
{
    let request =
        "GET /api/app:getLang HTTP/1.1\r\nHost: 127.0.0.1\r\nConnection: close\r\n\r\n".to_owned();
    Step::Perform(
        ApiPhase::Ask(n),
        Effect::Request(
            HttpProbe { port: APP_PORT, connect_millis: 300, read_millis: 1000, request },
        ),
    )
}

/// Begins to wait until the server has loaded its data sources.
pub fn wait_for_api() -> (r: Step<ApiPhase, ()>)
    ensures
        r@ == ask(0),
{
    ask_step(0)
}

/// Goes on with waiting from `phase` when the reply has come.
pub fn wait_for_api_next(phase: ApiPhase, reply: Reply) -> (r: Step<ApiPhase, ()>)
    ensures
        r@ == api_step(phase, reply@),
{
    match phase {
        ApiPhase::Ask(n) => {
            if let Ok(t) = reply.text() {
                if api_ready(t.as_str()) {
                    return Step::Finished(Ok(()));
                }
            }
            Step::Perform(ApiPhase::Pause(n), Effect::Sleep(1000))
        },
        ApiPhase::Pause(n) => if n < API_TRIES - 1 {
            ask_step(n + 1)
        } else {
            Step::Finished(
                Err("NocoBase 在 5 分钟内未完成数据源加载，请查看运行日志".to_owned()),
            )
        },
    }
}

/// The response to the `i`-th request.
pub open spec fn response(replies: Seq<ReplyView>, i: int) -> Result<Text, Text> {
    replies[2 * i].text()
}

/// One of the responses is that of a server which has loaded its data sources.
pub open spec fn ready_among(replies: Seq<ReplyView>) -> bool {
    exists|i: int|
        0 <= i < API_TRIES && 2 * i < replies.len() && (#[trigger] response(replies, i) matches Ok(
            t,
        ) && is_ready_response(t))
}

/// Where waiting stands after all of `replies`.
pub open spec fn waited(replies: Seq<ReplyView>) -> StepView<ApiPhase, ()> {
    run(|s: ApiPhase, r: ReplyView| api_step(s, r), ask(0), replies)
}

proof fn lemma_waited(replies: Seq<ReplyView>)
    ensures
        waited(replies) == if ready_among(replies) {
            succeeds::<ApiPhase, ()>(())
        } else if replies.len() >= 2 * API_TRIES {
            fails(never_ready())
        } else if replies.len() % 2 == 0 {
            ask((replies.len() / 2) as u32)
        } else {
            StepView::Perform(
                ApiPhase::Pause((replies.len() / 2) as u32),
                EffectView::Sleep(1000),
            )
        },
    decreases replies.len(),
{
    if replies.len() > 0 {
        let before = replies.drop_last();
        let n = before.len();
        lemma_waited(before);
        if ready_among(before) {
            let i = choose|i: int|
                0 <= i < API_TRIES && 2 * i < before.len() && (#[trigger] response(before, i)
                    matches Ok(t) && is_ready_response(t));
            assert(response(replies, i) == response(before, i));
        } else if ready_among(replies) {
            let i = choose|i: int|
                0 <= i < API_TRIES && 2 * i < replies.len() && (#[trigger] response(replies, i)
                    matches Ok(t) && is_ready_response(t));
            assert(response(before, i) == before[2 * i].text());
            assert(2 * i == n);
        } else if n % 2 == 0 && n < 2 * API_TRIES {
            let i = (n / 2) as int;
            assert(response(replies, i) == replies.last().text());
        }
    }
}

/// Waiting succeeds exactly when one of the first three hundred responses is that of a ready
/// server, and fails exactly when all of them, and the pauses between, have gone by without
/// one.
pub proof fn law_waiting_is_decided_by_the_responses(replies: Seq<ReplyView>)
    ensures
        waited(replies) == succeeds::<ApiPhase, ()>(()) <==> ready_among(replies),
        waited(replies) == fails::<ApiPhase, ()>(never_ready()) <==> replies.len() >= 2 * API_TRIES
            && !ready_among(replies),
        waited(replies) is Finished <==> ready_among(replies) || replies.len() >= 2 * API_TRIES,
{
    lemma_waited(replies);
}

/// A response is that of a ready server exactly where it begins with a success, names JSON
/// somewhere, whatever stands before and behind the name, and speaks neither of a pending command
/// nor of maintenance.
pub proof fn law_ready_is_a_success_with_json(response: &str, r: bool)
    requires
        call_ensures(api_ready, (response,), r),
    ensures
        r <==> is_ready_response(response@),
        r <==> {
            &&& exists|b: Text| response@ == #[trigger] ("HTTP/1.1 200"@ + b)
            &&& exists|a: Text, b: Text| response@ == #[trigger] (a + "application/json"@ + b)
            &&& !exists|a: Text, b: Text| response@ == #[trigger] (a + "APP_COMMANDING"@ + b)
            &&& !exists|a: Text, b: Text|
                response@ == #[trigger] (a + "\"maintaining\":true"@ + b)
        },
{
    let t = response@;
    let ok = "HTTP/1.1 200"@;
    law_part_stands_between(t, ok, 0);
    if exists|a: Text, b: Text| a.len() == 0 && t == #[trigger] (a + ok + b) {
        let (a, b) = choose|a: Text, b: Text| a.len() == 0 && t == #[trigger] (a + ok + b);
        assert(a + ok + b =~= ok + b);
    }
    if exists|b: Text| t == #[trigger] (ok + b) {
        let b = choose|b: Text| t == #[trigger] (ok + b);
        let a = Seq::<char>::empty();
        assert(a + ok + b =~= ok + b);
        assert(a.len() == 0 && t == a + ok + b);
    }
    law_held_part_splits_the_text(t, "application/json"@);
    law_held_part_splits_the_text(t, "APP_COMMANDING"@);
    law_held_part_splits_the_text(t, "\"maintaining\":true"@);
}

/// A success that names JSON is ready, whatever follows the name, unless the server still carries
/// out a command or is in maintenance.
pub proof fn law_json_of_any_kind_is_ready(a: Text, b: Text)
    ensures
        ({
            let response = "HTTP/1.1 200"@ + a + "application/json"@ + b;
            is_ready_response(response) <==> !holds_part(response, "APP_COMMANDING"@)
                && !holds_part(response, "\"maintaining\":true"@)
        }),
{
    let ok = "HTTP/1.1 200"@;
    let json = "application/json"@;
    let response = ok + a + json + b;
    let none = Seq::<char>::empty();
    let rest = a + json + b;
    assert(response =~= none + ok + rest);
    assert(none.len() == 0 && response == none + ok + rest);
    law_part_stands_between(response, ok, 0);
    assert(response == (ok + a) + json + b);
    law_held_part_splits_the_text(response, json);
}

} // verus!
