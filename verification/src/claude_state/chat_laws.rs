//! What holds of every exchange, whatever happens to it.
use vstd::prelude::*;

use crate::claude_state::model::{release_reason, retryable};
use crate::claude_state::{ActionView, ChatEventView, ChatView, ParamsView, Phase};
use crate::config::CookieView;
use crate::error::ErrorView;

verus! {

/// What one step of an exchange is given: the event, and the identifier for
/// a conversation that the step may open.
pub struct Input {
    pub event: ChatEventView,
    pub fresh: Seq<char>,
}

/// [`ChatView::try_chat`] as a function to fold with.
pub open spec fn stepping(p: ParamsView) -> spec_fn(ChatView, Input) -> ChatView {
    |s: ChatView, i: Input| s.try_chat(p, i.event, i.fresh).0
}

/// The exchange `s` after the steps of `run`.
pub open spec fn after(s: ChatView, p: ParamsView, run: Seq<Input>) -> ChatView {
    run.fold_left(s, stepping(p))
}

/// What the last step of `run` asks for.
pub open spec fn last_action(s: ChatView, p: ParamsView, run: Seq<Input>) -> ActionView
    recommends
        run.len() > 0,
{
    after(s, p, run.drop_last()).try_chat(p, run.last().event, run.last().fresh).1
}

/// How many credentials reach the exchange during `run`.
pub open spec fn granted(run: Seq<Input>) -> nat
    decreases run.len(),
{
    if run.len() == 0 {
        0
    } else {
        granted(run.drop_last()) + if run.last().event matches ChatEventView::Leased(Ok(_)) {
            1nat
        } else {
            0nat
        }
    }
}

/// How many times the exchange hands a credential back during `run`.
pub open spec fn returned(s: ChatView, p: ParamsView, run: Seq<Input>) -> nat
    decreases run.len(),
{
    if run.len() == 0 {
        0
    } else {
        returned(s, p, run.drop_last()) + if last_action(s, p, run) is Return {
            1nat
        } else {
            0nat
        }
    }
}

/// How many times the exchange asks for a credential during `run`, that is,
/// how many attempts it begins.
pub open spec fn attempts(s: ChatView, p: ParamsView, run: Seq<Input>) -> nat
    decreases run.len(),
{
    if run.len() == 0 {
        0
    } else {
        attempts(s, p, run.drop_last()) + if last_action(s, p, run) is Lease {
            1nat
        } else {
            0nat
        }
    }
}

/// Whether the exchange holds a credential only where it may: not before
/// it has one, not once it has handed it back, and not at its end.
pub open spec fn tidy(s: ChatView) -> bool {
    s.phase == Phase::Idle || s.phase == Phase::Leasing || s.phase == Phase::Releasing || s.phase
        == Phase::Done ==> s.cookie is None
}

/// One step keeps an exchange tidy. It hands back at most the credential it
/// held or the one that has just arrived, and it holds one afterwards
/// exactly if it held or received one and did not hand it back.
pub proof fn lemma_step_balance(s: ChatView, p: ParamsView, input: Input)
    requires
        tidy(s),
    ensures
        tidy(s.try_chat(p, input.event, input.fresh).0),
        s.try_chat(p, input.event, input.fresh).1 matches ActionView::Return { cookie, .. }
            ==> s.cookie == Some(cookie) || input.event == ChatEventView::Leased(Ok(cookie)),
        ({
            let (next, action) = s.try_chat(p, input.event, input.fresh);
            let held: int = if s.cookie is Some { 1 } else { 0 };
            let came: int = if input.event matches ChatEventView::Leased(Ok(_)) { 1 } else { 0 };
            let went: int = if action is Return { 1 } else { 0 };
            let holds: int = if next.cookie is Some { 1 } else { 0 };
            held + came == went + holds
        }),
{
}

/// Lease safety: every credential that reaches an exchange goes back to the
/// pool, once. At any moment of any run, the credentials received are those
/// handed back and the one still held; at the end of the exchange none is
/// held, so as many were handed back as were received.
pub proof fn lemma_lease_safety(s: ChatView, p: ParamsView, run: Seq<Input>)
    requires
        tidy(s),
        s.cookie is None,
    ensures
        tidy(after(s, p, run)),
        granted(run) == returned(s, p, run) + if after(s, p, run).cookie is Some {
            1nat
        } else {
            0nat
        },
        after(s, p, run).phase == Phase::Done ==> granted(run) == returned(s, p, run),
    decreases run.len(),
{
    if run.len() > 0 {
        lemma_lease_safety(s, p, run.drop_last());
        lemma_step_balance(after(s, p, run.drop_last()), p, run.last());
    }
}

/// The credential goes back with what the attempt found out about it: once
/// an attempt has ended, the next thing after the deletion of its
/// conversation, if it opened one, is the return of the credential it held,
/// for the reason for which the upstream service turned it down, and for
/// [`Reason::NormalPro`](crate::config::Reason::NormalPro) if it did not.
pub proof fn lemma_release_names_the_outcome(
    s: ChatView,
    p: ParamsView,
    cookie: CookieView,
    outcome: Result<(), ErrorView>,
    fresh: Seq<char>,
)
    requires
        s.cookie == Some(cookie),
    ensures
        ({
            let (ended, action) = s.conclude(outcome);
            let back = ActionView::Return { cookie, reason: Some(release_reason(Some(outcome))) };
            if action is Clean {
                ended.phase == Phase::Cleaning && ended.try_chat(
                    p,
                    ChatEventView::Cleaned,
                    fresh,
                ).1 == back
            } else {
                action == back
            }
        }),
{
}

/// The retry bound: an exchange that allows `max_retries` retries begins at
/// most `max_retries + 1` attempts. What it has left to retry and what it
/// has begun add up to that number from the first attempt on.
pub proof fn lemma_retry_bound(
    endpoint: Seq<char>,
    key: Option<(u64, usize)>,
    max_retries: usize,
    p: ParamsView,
    run: Seq<Input>,
)
    ensures
        attempts(ChatView::fresh(endpoint, key, max_retries), p, run) <= max_retries + 1,
        ({
            let s = ChatView::fresh(endpoint, key, max_retries);
            let n = attempts(s, p, run);
            let now = after(s, p, run);
            &&& n == 0 ==> now.retries == max_retries && (now.phase == Phase::Idle || now.phase
                == Phase::Done)
            &&& n > 0 ==> n + now.retries == max_retries + 1 && now.phase != Phase::Idle
        }),
    decreases run.len(),
{
    if run.len() > 0 {
        lemma_retry_bound(endpoint, key, max_retries, p, run.drop_last());
    }
}

/// When the retries run out: after a failure that rests the credential for a
/// time, the exchange begins another attempt while it has begun fewer than
/// `max_retries + 1`, and fails with [`ErrorView::TooManyRetries`] once it
/// has begun that many.
pub proof fn lemma_retries_run_out(
    endpoint: Seq<char>,
    key: Option<(u64, usize)>,
    max_retries: usize,
    p: ParamsView,
    run: Seq<Input>,
    fresh: Seq<char>,
)
    requires
        after(ChatView::fresh(endpoint, key, max_retries), p, run).phase == Phase::Releasing,
        retryable(after(ChatView::fresh(endpoint, key, max_retries), p, run).outcome),
    ensures
        ({
            let s = ChatView::fresh(endpoint, key, max_retries);
            let n = attempts(s, p, run);
            let step = after(s, p, run).try_chat(p, ChatEventView::Returned, fresh);
            &&& 1 <= n <= max_retries + 1
            &&& n <= max_retries ==> step.1 == ActionView::Lease && step.0.phase == Phase::Leasing
            &&& n == max_retries + 1 ==> step.1 == ActionView::Fail(ErrorView::TooManyRetries)
                && step.0.phase == Phase::Done
        }),
{
    lemma_retry_bound(endpoint, key, max_retries, p, run);
}

} // verus!
