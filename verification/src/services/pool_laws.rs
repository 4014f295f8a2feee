//! How the operations of the credential pool play together.
use vstd::prelude::*;

use crate::config::{CookieView, Reason, UselessView};
use crate::services::pool::{
    due_at, requesting, resting_at, revived, tokens, EventView, PoolView, ReplyView,
};
use crate::services::pool_invariants::{
    lemma_collect_keeps, lemma_delete_keeps, lemma_push, lemma_reset_keeps, lemma_reset_tokens,
    lemma_rotate, lemma_tokens_contains, lemma_useless_push, lemma_without,
};

verus! {

/// The sequence `s` turned by `r` places: it starts at `s[r]` and ends with
/// the first `r` elements of `s`.
pub open spec fn turned(s: Seq<CookieView>, r: int) -> Seq<CookieView> {
    s.subrange(r, s.len() as int) + s.subrange(0, r)
}

proof fn lemma_mod_step(k: int, n: int)
    requires
        0 <= k,
        0 < n,
    ensures
        (k + 1) % n == if k % n + 1 < n {
            k % n + 1
        } else {
            0
        },
        0 <= k % n < n,
{
    assert(0 <= k % n < n && ((k + 1) % n == if k % n + 1 < n {
        k % n + 1
    } else {
        0
    })) by (nonlinear_arith)
        requires
            0 <= k,
            0 < n,
    ;
}

/// Round robin: while no credential comes out of rest, the requests go
/// through the rotation in order and start over at its end. After `k`
/// requests the rotation is the one at the start turned by `k` modulo its
/// length, so the next request receives the credential at that place.
pub proof fn lemma_round_robin(p: PoolView, times: Seq<i64>, now: i64)
    requires
        p.valid.len() > 0,
        forall|i: int| 0 <= i < times.len() ==> !p.sweeps(#[trigger] times[i]),
        !p.sweeps(now),
    ensures
        times.fold_left(p, requesting()).valid == turned(
            p.valid,
            times.len() as int % p.valid.len() as int,
        ),
        times.fold_left(p, requesting()).exhausted == p.exhausted,
        times.fold_left(p, requesting()).invalid == p.invalid,
        times.fold_left(p, requesting()).dispatched(now) == Some(
            p.valid[times.len() as int % p.valid.len() as int],
        ),
    decreases times.len(),
{
    let n = p.valid.len() as int;
    let k = times.len() as int;
    let q = times.fold_left(p, requesting());
    if times.len() > 0 {
        let init = times.drop_last();
        let before = init.fold_left(p, requesting());
        assert forall|i: int| 0 <= i < init.len() implies !p.sweeps(#[trigger] init[i]) by {
            assert(init[i] == times[i]);
        }
        lemma_round_robin(p, init, times.last());
        lemma_mod_step(k - 1, n);
        let r = (k - 1) % n;
        assert(before.sweeps(times.last()) == p.sweeps(times.last()));
        lemma_reset_keeps(before, times.last());
        assert(q == before.dispatch(times.last()));
        assert(turned(p.valid, r).drop_first().push(turned(p.valid, r)[0]) =~= turned(
            p.valid,
            k % n,
        ));
    } else {
        assert(turned(p.valid, 0) =~= p.valid);
    }
    lemma_mod_step(k, n);
    assert(q.sweeps(now) == p.sweeps(now));
    lemma_reset_keeps(q, now);
    assert(turned(p.valid, k % n)[0] == p.valid[k % n]);
}

/// A credential that is returned with a reset time, and was neither resting
/// nor given up before, leaves the rotation and rests. A request before that time does
/// not receive it. A sweep at or after that time puts it at the back of the
/// rotation, without its reset time, where requests reach it again.
pub proof fn lemma_rest_and_return(
    p: PoolView,
    cookie: CookieView,
    reason: Reason,
    before: i64,
    after: i64,
)
    requires
        reason.reset_at() is Some,
        !p.has_exhausted(cookie.cookie),
        !p.has_invalid(cookie.cookie),
        before < reason.reset_at().unwrap() <= after,
    ensures
        p.collects(cookie, Some(reason)),
        !p.collect(cookie, Some(reason)).has_valid(cookie.cookie),
        p.collect(cookie, Some(reason)).has_exhausted(cookie.cookie),
        p.collect(cookie, Some(reason)).dispatched(before) matches Some(c) ==> c.cookie
            != cookie.cookie,
        !p.collect(cookie, Some(reason)).dispatch(before).has_valid(cookie.cookie),
        p.collect(cookie, Some(reason)).reset(after).valid.last() == (CookieView {
            cookie: cookie.cookie,
            reset_time: None,
        }),
        p.collect(cookie, Some(reason)).reset(after).has_valid(cookie.cookie),
        !p.collect(cookie, Some(reason)).reset(after).has_exhausted(cookie.cookie),
        p.collect(cookie, Some(reason)).sweeps(after),
{
    let token = cookie.cookie;
    let resting = CookieView { cookie: token, reset_time: reason.reset_at() };
    let q = p.collect(cookie, Some(reason));
    lemma_without(p.valid, token);
    lemma_push(p.exhausted, resting);
    assert(q.exhausted == p.exhausted.push(resting));
    assert(!q.has_valid(token));
    // Before the reset time the sweep passes the credential by.
    lemma_reset_tokens(q, before);
    let early = q.reset(before);
    assert(!early.has_valid(token)) by {
        if early.has_valid(token) {
            let i = choose|i: int|
                0 <= i < q.exhausted.len() && (#[trigger] q.exhausted[i]).cookie == token
                    && q.exhausted[i].due(before);
            if i < p.exhausted.len() {
                lemma_tokens_contains(p.exhausted, token);
            }
        }
    }
    if early.valid.len() > 0 {
        assert(tokens(early.valid)[0] == early.valid[0].cookie);
        lemma_rotate(early.valid);
    }
    // From the reset time on the sweep moves it, last of all.
    p.exhausted.lemma_filter_push(resting, due_at(after));
    p.exhausted.lemma_filter_push(resting, resting_at(after));
    let due = p.exhausted.filter(due_at(after));
    due.lemma_push_map_commute(revived(), resting);
    lemma_reset_tokens(q, after);
    let late = q.reset(after);
    assert(q.exhausted[p.exhausted.len() as int] == resting);
    assert(!late.has_exhausted(token)) by {
        if late.has_exhausted(token) {
            let i = choose|i: int|
                0 <= i < q.exhausted.len() && (#[trigger] q.exhausted[i]).cookie == token
                    && !q.exhausted[i].due(after);
            if i < p.exhausted.len() {
                lemma_tokens_contains(p.exhausted, token);
            }
        }
    }
}

/// Returning a credential a second time for a reason of the same kind asks
/// for no storing and changes nothing: of two returns in a row only the
/// first can make the pool store itself, and it does so exactly if the
/// credential was not yet where the reason sends it.
pub proof fn lemma_second_return_is_idle(
    p: PoolView,
    cookie: CookieView,
    first: Reason,
    second: Reason,
)
    requires
        first != Reason::NormalPro,
        second != Reason::NormalPro,
        first.reset_at() is Some <==> second.reset_at() is Some,
    ensures
        p.collects(cookie, Some(first)) <==> if first.reset_at() is Some {
            !p.has_exhausted(cookie.cookie) && !p.has_invalid(cookie.cookie)
        } else {
            !p.has_invalid(cookie.cookie)
        },
        !p.collect(cookie, Some(first)).collects(cookie, Some(second)),
        p.collect(cookie, Some(first)).collect(cookie, Some(second)) == p.collect(
            cookie,
            Some(first),
        ),
{
    let token = cookie.cookie;
    let q = p.collect(cookie, Some(first));
    lemma_without(p.valid, token);
    lemma_without(p.exhausted, token);
    lemma_push(p.exhausted, CookieView { cookie: token, reset_time: first.reset_at() });
    lemma_useless_push(p.invalid, UselessView { cookie: token, reason: first });
    assert(!q.has_valid(token));
    assert(first.is_terminal() ==> !q.has_exhausted(token));
    lemma_collect_keeps(q, cookie, Some(second));
}

/// Returning a credential touches that credential alone: every other token
/// is in rotation, at rest and given up afterwards exactly as it was before.
pub proof fn lemma_return_touches_one(
    p: PoolView,
    cookie: CookieView,
    reason: Option<Reason>,
    other: Seq<char>,
)
    requires
        other != cookie.cookie,
    ensures
        p.collect(cookie, reason).has_valid(other) <==> p.has_valid(other),
        p.collect(cookie, reason).has_exhausted(other) <==> p.has_exhausted(other),
        p.collect(cookie, reason).has_invalid(other) <==> p.has_invalid(other),
{
    match reason {
        None => {},
        Some(Reason::NormalPro) => {},
        Some(r) => {
            lemma_without(p.valid, cookie.cookie);
            lemma_without(p.exhausted, cookie.cookie);
            lemma_push(
                p.exhausted,
                CookieView { cookie: cookie.cookie, reset_time: r.reset_at() },
            );
            lemma_useless_push(p.invalid, UselessView { cookie: cookie.cookie, reason: r });
        },
    }
}

/// A credential that is returned for a reason without a reset time, other
/// than [`Reason::NormalPro`], is given up: it is recorded as such and is
/// neither in rotation nor at rest any more, that is,
/// [barred](PoolView::barred).
pub proof fn lemma_give_up(p: PoolView, cookie: CookieView, reason: Reason)
    requires
        reason.is_terminal(),
    ensures
        p.collect(cookie, Some(reason)).barred(cookie.cookie),
{
    let token = cookie.cookie;
    lemma_without(p.valid, token);
    lemma_without(p.exhausted, token);
    lemma_useless_push(p.invalid, UselessView { cookie: token, reason });
}

/// Whether `event` lets a barred token go: it deletes the token from the
/// pool.
pub open spec fn releases(event: EventView, token: Seq<char>) -> bool {
    event matches EventView::Delete(c) && c.cookie == token
}

/// A barred token stays barred through every event but its deletion,
/// whatever is returned for whatever reason. A request does not receive it,
/// and submitting it anew is turned away without a change.
pub proof fn lemma_barred_stays(p: PoolView, token: Seq<char>, event: EventView, now: i64)
    requires
        p.barred(token),
        !releases(event, token),
    ensures
        p.run(event, now).barred(token),
        p.reply(event, now) matches ReplyView::Cookie(Ok(c)) ==> c.cookie != token,
        event matches EventView::Submit(c) && c.cookie == token ==> p.run(event, now) == p
            && !p.stores(event, now),
{
    match event {
        EventView::Return(c, reason) => {
            match reason {
                None => {},
                Some(Reason::NormalPro) => {},
                Some(r) => {
                    lemma_without(p.valid, c.cookie);
                    lemma_without(p.exhausted, c.cookie);
                    lemma_push(
                        p.exhausted,
                        CookieView { cookie: c.cookie, reset_time: r.reset_at() },
                    );
                    lemma_useless_push(p.invalid, UselessView { cookie: c.cookie, reason: r });
                },
            }
        },
        EventView::Submit(c) => {
            lemma_push(p.valid, CookieView { cookie: c.cookie, reset_time: None });
        },
        EventView::CheckReset => {
            lemma_reset_tokens(p, now);
            lemma_tokens_contains(p.exhausted, token);
        },
        EventView::Request => {
            lemma_reset_tokens(p, now);
            lemma_tokens_contains(p.exhausted, token);
            let swept = p.reset(now);
            assert(swept.barred(token));
            if swept.valid.len() > 0 {
                assert(tokens(swept.valid)[0] == swept.valid[0].cookie);
                lemma_rotate(swept.valid);
            }
        },
        EventView::GetStatus => {},
        EventView::Delete(c) => {
            lemma_delete_keeps(p, c.cookie);
        },
    }
}

/// Giving up is permanent: once a token is barred, no sequence of events
/// brings it back unless one of them [deletes](releases) it, and no request
/// among them receives it.
pub proof fn lemma_barred_for_good(p: PoolView, token: Seq<char>, events: Seq<(EventView, i64)>)
    requires
        p.barred(token),
        forall|i: int| 0 <= i < events.len() ==> !releases((#[trigger] events[i]).0, token),
    ensures
        p.run_all(events).barred(token),
        forall|i: int|
            0 <= i < events.len() ==> (p.run_all(events.take(i)).reply(
                (#[trigger] events[i]).0,
                events[i].1,
            ) matches ReplyView::Cookie(Ok(c)) ==> c.cookie != token),
    decreases events.len(),
{
    if events.len() > 0 {
        let init = events.drop_last();
        let last = events.last();
        assert forall|i: int| 0 <= i < init.len() implies !releases((#[trigger] init[i]).0, token) by {
            assert(init[i] == events[i]);
        }
        lemma_barred_for_good(p, token, init);
        lemma_barred_stays(p.run_all(init), token, last.0, last.1);
        assert forall|i: int| 0 <= i < events.len() implies (p.run_all(events.take(i)).reply(
            (#[trigger] events[i]).0,
            events[i].1,
        ) matches ReplyView::Cookie(Ok(c)) ==> c.cookie != token) by {
            if i < init.len() {
                assert(init.take(i) =~= events.take(i));
                assert(init[i] == events[i]);
            } else {
                assert(events.take(i) =~= init);
            }
        }
    }
}

} // verus!
