//! What stays true of the credential pool whatever it is asked to do.
use vstd::prelude::*;
use vstd::seq_lib::lemma_no_dup_in_concat;

use crate::config::{CookieView, Reason, UselessView};
use crate::seq_facts::{lemma_filter_all, lemma_filter_keys};
use crate::services::pool::{
    due_at, other_than, resting_at, restoring, restoring_useless, revived, token_of, tokens,
    useless_other_than, useless_token_of, useless_tokens, with_reset_time, without_reset_time,
    EventView, PoolView,
};

verus! {

/// A token is among those of `s` exactly if a credential in `s` has it.
pub proof fn lemma_tokens_contains(s: Seq<CookieView>, token: Seq<char>)
    ensures
        tokens(s).contains(token) <==> exists|i: int|
            0 <= i < s.len() && (#[trigger] s[i]).cookie == token,
{
    if tokens(s).contains(token) {
        let i = choose|i: int| 0 <= i < tokens(s).len() && tokens(s)[i] == token;
        assert(s[i].cookie == token);
    }
    if exists|i: int| 0 <= i < s.len() && (#[trigger] s[i]).cookie == token {
        let i = choose|i: int| 0 <= i < s.len() && (#[trigger] s[i]).cookie == token;
        assert(tokens(s)[i] == token);
    }
}

/// A token is among those of `s` exactly if a given-up credential in `s` has it.
pub proof fn lemma_useless_tokens_contains(s: Seq<UselessView>, token: Seq<char>)
    ensures
        useless_tokens(s).contains(token) <==> exists|i: int|
            0 <= i < s.len() && (#[trigger] s[i]).cookie == token,
{
    if useless_tokens(s).contains(token) {
        let i = choose|i: int| 0 <= i < useless_tokens(s).len() && useless_tokens(s)[i] == token;
        assert(s[i].cookie == token);
    }
    if exists|i: int| 0 <= i < s.len() && (#[trigger] s[i]).cookie == token {
        let i = choose|i: int| 0 <= i < s.len() && (#[trigger] s[i]).cookie == token;
        assert(useless_tokens(s)[i] == token);
    }
}

/// Taking the credentials with one token out of `s` removes that token and
/// no other, repeats none, and changes nothing where the token was absent.
pub proof fn lemma_without(s: Seq<CookieView>, token: Seq<char>)
    ensures
        forall|t: Seq<char>|
            #[trigger] tokens(s.filter(other_than(token))).contains(t) <==> t != token && tokens(
                s,
            ).contains(t),
        tokens(s).no_duplicates() ==> tokens(s.filter(other_than(token))).no_duplicates(),
        !tokens(s).contains(token) ==> s.filter(other_than(token)) == s,
{
    lemma_filter_keys(s, token_of(), other_than(token));
    assert forall|t: Seq<char>|
        #[trigger] tokens(s.filter(other_than(token))).contains(t) <==> t != token && tokens(
            s,
        ).contains(t) by {
        lemma_tokens_contains(s, t);
    }
    if !tokens(s).contains(token) {
        assert forall|i: int| 0 <= i < s.len() implies other_than(token)(#[trigger] s[i]) by {
            lemma_tokens_contains(s, token);
        }
        lemma_filter_all(s, other_than(token));
    }
}

/// As [`lemma_without`], for the given-up credentials.
pub proof fn lemma_useless_without(s: Seq<UselessView>, token: Seq<char>)
    ensures
        forall|t: Seq<char>|
            #[trigger] useless_tokens(s.filter(useless_other_than(token))).contains(t) <==> t
                != token && useless_tokens(s).contains(t),
        useless_tokens(s).no_duplicates() ==> useless_tokens(
            s.filter(useless_other_than(token)),
        ).no_duplicates(),
        !useless_tokens(s).contains(token) ==> s.filter(useless_other_than(token)) == s,
{
    lemma_filter_keys(s, useless_token_of(), useless_other_than(token));
    assert forall|t: Seq<char>|
        #[trigger] useless_tokens(s.filter(useless_other_than(token))).contains(t) <==> t != token
            && useless_tokens(s).contains(t) by {
        lemma_useless_tokens_contains(s, t);
    }
    if !useless_tokens(s).contains(token) {
        assert forall|i: int| 0 <= i < s.len() implies useless_other_than(token)(
            #[trigger] s[i],
        ) by {
            lemma_useless_tokens_contains(s, token);
        }
        lemma_filter_all(s, useless_other_than(token));
    }
}

/// One more credential at the back adds its token and no other, and repeats
/// none if the token is new.
pub proof fn lemma_push(s: Seq<CookieView>, c: CookieView)
    ensures
        tokens(s.push(c)) == tokens(s).push(c.cookie),
        forall|t: Seq<char>|
            #[trigger] tokens(s.push(c)).contains(t) <==> t == c.cookie || tokens(s).contains(t),
        tokens(s).no_duplicates() && !tokens(s).contains(c.cookie) ==> tokens(
            s.push(c),
        ).no_duplicates(),
{
    s.lemma_push_map_commute(token_of(), c);
    let pushed = tokens(s).push(c.cookie);
    assert forall|t: Seq<char>| #[trigger]
        pushed.contains(t) <==> t == c.cookie || tokens(s).contains(t) by {
        if pushed.contains(t) {
            let i = choose|i: int| 0 <= i < pushed.len() && pushed[i] == t;
            if i < s.len() {
                assert(tokens(s)[i] == t);
            }
        }
        if tokens(s).contains(t) {
            let i = choose|i: int| 0 <= i < tokens(s).len() && tokens(s)[i] == t;
            assert(pushed[i] == t);
        }
        if t == c.cookie {
            assert(pushed[s.len() as int] == t);
        }
    }
}

/// As [`lemma_push`], for the given-up credentials.
pub proof fn lemma_useless_push(s: Seq<UselessView>, u: UselessView)
    ensures
        useless_tokens(s.push(u)) == useless_tokens(s).push(u.cookie),
        forall|t: Seq<char>|
            #[trigger] useless_tokens(s.push(u)).contains(t) <==> t == u.cookie || useless_tokens(
                s,
            ).contains(t),
        useless_tokens(s).no_duplicates() && !useless_tokens(s).contains(u.cookie)
            ==> useless_tokens(s.push(u)).no_duplicates(),
{
    s.lemma_push_map_commute(useless_token_of(), u);
    let pushed = useless_tokens(s).push(u.cookie);
    assert forall|t: Seq<char>| #[trigger]
        pushed.contains(t) <==> t == u.cookie || useless_tokens(s).contains(t) by {
        if pushed.contains(t) {
            let i = choose|i: int| 0 <= i < pushed.len() && pushed[i] == t;
            if i < s.len() {
                assert(useless_tokens(s)[i] == t);
            }
        }
        if useless_tokens(s).contains(t) {
            let i = choose|i: int| 0 <= i < useless_tokens(s).len() && useless_tokens(s)[i] == t;
            assert(pushed[i] == t);
        }
        if t == u.cookie {
            assert(pushed[s.len() as int] == t);
        }
    }
}

/// Returning a credential keeps the pool well formed and timed, and keeps
/// the three collections apart. A return that asks for no storing leaves a
/// pool unchanged in which the credential was not in rotation, nor at rest
/// where the reason gives it up; so it does in every well-formed pool whose
/// collections are apart.
pub proof fn lemma_collect_keeps(p: PoolView, cookie: CookieView, reason: Option<Reason>)
    ensures
        p.wf() ==> p.collect(cookie, reason).wf(),
        p.timed() ==> p.collect(cookie, reason).timed(),
        p.exclusive() ==> p.collect(cookie, reason).exclusive(),
        !p.collects(cookie, reason) && !p.has_valid(cookie.cookie) && (reason matches Some(r)
            && r.is_terminal() ==> !p.has_exhausted(cookie.cookie)) ==> p.collect(cookie, reason)
            == p,
        !p.collects(cookie, reason) && p.wf() && p.exclusive() ==> p.collect(cookie, reason) == p,
{
    let q = p.collect(cookie, reason);
    let token = cookie.cookie;
    match reason {
        None => {},
        Some(Reason::NormalPro) => {},
        Some(r) => {
            let kept = p.valid.filter(other_than(token));
            let rested = p.exhausted.filter(other_than(token));
            let resting = CookieView { cookie: token, reset_time: r.reset_at() };
            let useless = UselessView { cookie: token, reason: r };
            lemma_without(p.valid, token);
            lemma_without(p.exhausted, token);
            lemma_push(p.exhausted, resting);
            lemma_useless_push(p.invalid, useless);
            assert(q.valid == kept);
            assert forall|t: Seq<char>| q.has_valid(t) implies p.has_valid(t) && t != token by {}
            assert forall|t: Seq<char>| q.has_exhausted(t) implies (p.has_exhausted(t) && (t
                != token || r.reset_at() is Some)) || (t == token && r.reset_at() is Some
                && !p.has_invalid(token)) by {}
            assert forall|t: Seq<char>| q.has_invalid(t) implies p.has_invalid(t) || (t == token
                && r.reset_at() is None) by {}
            if p.wf() {
                assert forall|t: Seq<char>| !(q.has_valid(t) && q.has_exhausted(t)) by {
                    if q.has_valid(t) && q.has_exhausted(t) {
                        assert(p.has_valid(t) && p.has_exhausted(t));
                    }
                }
            }
            if !p.collects(cookie, reason) {
                if p.wf() && p.exclusive() {
                    assert(!(p.has_valid(token) && p.has_exhausted(token)));
                    assert(p.has_invalid(token) ==> !p.has_valid(token) && !p.has_exhausted(token));
                }
                if !p.has_valid(token) && (r.is_terminal() ==> !p.has_exhausted(token)) {
                    assert(q =~= p);
                }
            }
            if p.timed() {
                assert forall|i: int| 0 <= i < kept.len() implies (#[trigger] kept[i]).reset_time
                    is None by {
                    p.valid.lemma_filter_contains_rev(other_than(token), kept[i]);
                }
                assert forall|i: int| 0 <= i < rested.len() implies (
                #[trigger] rested[i]).reset_time is Some by {
                    p.exhausted.lemma_filter_contains_rev(other_than(token), rested[i]);
                }
            }
            if p.exclusive() {
                assert forall|t: Seq<char>| q.has_invalid(t) implies !q.has_valid(t)
                    && !q.has_exhausted(t) by {
                    if p.has_invalid(t) {
                        assert(!p.has_valid(t) && !p.has_exhausted(t));
                    }
                }
            }
        },
    }
}

/// Submitting a credential keeps the pool well formed and timed, and keeps
/// its collections apart.
pub proof fn lemma_accept_keeps(p: PoolView, cookie: CookieView)
    ensures
        p.wf() ==> p.accept(cookie).wf(),
        p.exclusive() ==> p.accept(cookie).exclusive(),
        p.timed() ==> p.accept(cookie).timed(),
{
    let q = p.accept(cookie);
    lemma_push(p.valid, CookieView { cookie: cookie.cookie, reset_time: None });
    if !p.knows(cookie.cookie) {
        if p.wf() {
            assert forall|t: Seq<char>| !(q.has_valid(t) && q.has_exhausted(t)) by {
                assert(!(p.has_valid(t) && p.has_exhausted(t)));
            }
        }
        if p.exclusive() {
            assert forall|t: Seq<char>| q.has_invalid(t) implies !q.has_valid(t)
                && !q.has_exhausted(t) by {
                assert(p.has_invalid(t));
            }
        }
    }
}

/// What a sweep does to the tokens: a token is in rotation afterwards if it
/// was before or rested with its time reached, and rests afterwards if it
/// rested with its time still to come.
pub proof fn lemma_reset_tokens(p: PoolView, now: i64)
    ensures
        forall|t: Seq<char>| #[trigger]
            p.reset(now).has_valid(t) <==> p.has_valid(t) || exists|i: int|
                0 <= i < p.exhausted.len() && (#[trigger] p.exhausted[i]).cookie == t
                    && p.exhausted[i].due(now),
        forall|t: Seq<char>| #[trigger]
            p.reset(now).has_exhausted(t) <==> exists|i: int|
                0 <= i < p.exhausted.len() && (#[trigger] p.exhausted[i]).cookie == t
                    && !p.exhausted[i].due(now),
        tokens(p.reset(now).valid) == tokens(p.valid) + tokens(p.exhausted.filter(due_at(now))),
{
    let due = p.exhausted.filter(due_at(now));
    let back = due.map_values(revived());
    let q = p.reset(now);
    lemma_filter_keys(p.exhausted, token_of(), due_at(now));
    lemma_filter_keys(p.exhausted, token_of(), resting_at(now));
    assert(tokens(back) =~= tokens(due));
    assert(tokens(p.valid + back) =~= tokens(p.valid) + tokens(due));
    assert forall|t: Seq<char>| #[trigger]
        q.has_valid(t) <==> p.has_valid(t) || exists|i: int|
            0 <= i < p.exhausted.len() && (#[trigger] p.exhausted[i]).cookie == t
                && p.exhausted[i].due(now) by {
        let all = tokens(p.valid) + tokens(due);
        if all.contains(t) {
            let i = choose|i: int| 0 <= i < all.len() && all[i] == t;
            if i < p.valid.len() {
                assert(tokens(p.valid)[i] == t);
            } else {
                assert(tokens(due)[i - p.valid.len()] == t);
                assert(tokens(due).contains(t));
            }
        }
        if tokens(p.valid).contains(t) {
            let i = choose|i: int| 0 <= i < tokens(p.valid).len() && tokens(p.valid)[i] == t;
            assert(all[i] == t);
        }
        if tokens(due).contains(t) {
            let i = choose|i: int| 0 <= i < tokens(due).len() && tokens(due)[i] == t;
            assert(all[p.valid.len() + i] == t);
        }
    }
}

/// A sweep keeps the pool well formed, timed, and its collections apart. A
/// sweep that moves nothing changes nothing.
pub proof fn lemma_reset_keeps(p: PoolView, now: i64)
    ensures
        p.wf() ==> p.reset(now).wf(),
        p.exclusive() ==> p.reset(now).exclusive(),
        p.timed() ==> p.reset(now).timed(),
        !p.sweeps(now) ==> p.reset(now) == p,
{
    let due = p.exhausted.filter(due_at(now));
    let back = due.map_values(revived());
    let q = p.reset(now);
    lemma_reset_tokens(p, now);
    lemma_filter_keys(p.exhausted, token_of(), due_at(now));
    lemma_filter_keys(p.exhausted, token_of(), resting_at(now));
    if p.wf() {
        assert forall|i: int, j: int|
            0 <= i < tokens(p.valid).len() && 0 <= j < tokens(due).len() implies tokens(
            p.valid,
        )[i] != tokens(due)[j] by {
            let t = tokens(due)[j];
            assert(tokens(due).contains(t));
            lemma_tokens_contains(p.exhausted, t);
            if tokens(p.valid)[i] == t {
                assert(p.has_valid(t) && p.has_exhausted(t));
            }
        }
        lemma_no_dup_in_concat(tokens(p.valid), tokens(due));
        assert forall|t: Seq<char>| !(q.has_valid(t) && q.has_exhausted(t)) by {
            if q.has_valid(t) && q.has_exhausted(t) {
                let j = choose|j: int|
                    0 <= j < p.exhausted.len() && (#[trigger] p.exhausted[j]).cookie == t
                        && !p.exhausted[j].due(now);
                lemma_tokens_contains(p.exhausted, t);
                if p.has_valid(t) {
                    assert(p.has_valid(t) && p.has_exhausted(t));
                } else {
                    let i = choose|i: int|
                        0 <= i < p.exhausted.len() && (#[trigger] p.exhausted[i]).cookie == t
                            && p.exhausted[i].due(now);
                    assert(tokens(p.exhausted)[i] == tokens(p.exhausted)[j]);
                }
            }
        }
    }
    if p.exclusive() {
        assert forall|t: Seq<char>| q.has_invalid(t) implies !q.has_valid(t) && !q.has_exhausted(
            t,
        ) by {
            lemma_tokens_contains(p.exhausted, t);
            assert(!p.has_valid(t) && !p.has_exhausted(t));
        }
    }
    if p.timed() {
        let rest = p.exhausted.filter(resting_at(now));
        assert forall|i: int| 0 <= i < rest.len() implies (#[trigger] rest[i]).reset_time
            is Some by {
            p.exhausted.lemma_filter_contains_rev(resting_at(now), rest[i]);
        }
    }
    if !p.sweeps(now) {
        assert forall|i: int| 0 <= i < p.exhausted.len() implies resting_at(now)(
            #[trigger] p.exhausted[i],
        ) by {
            if p.exhausted[i].due(now) {
                p.exhausted.lemma_filter_contains(due_at(now), i);
            }
        }
        lemma_filter_all(p.exhausted, resting_at(now));
        assert(back =~= Seq::empty());
        assert(p.valid + back =~= p.valid);
        assert(q =~= p);
    }
}

/// Moving the front of a sequence to its back keeps its tokens, and repeats
/// none if none was repeated.
pub proof fn lemma_rotate(s: Seq<CookieView>)
    requires
        s.len() > 0,
    ensures
        forall|t: Seq<char>| #[trigger]
            tokens(s.drop_first().push(s[0])).contains(t) <==> tokens(s).contains(t),
        tokens(s).no_duplicates() ==> tokens(s.drop_first().push(s[0])).no_duplicates(),
{
    let r = s.drop_first().push(s[0]);
    assert forall|t: Seq<char>| #[trigger] tokens(r).contains(t) <==> tokens(s).contains(t) by {
        if tokens(r).contains(t) {
            let i = choose|i: int| 0 <= i < tokens(r).len() && tokens(r)[i] == t;
            if i < s.len() - 1 {
                assert(tokens(s)[i + 1] == t);
            } else {
                assert(tokens(s)[0] == t);
            }
        }
        if tokens(s).contains(t) {
            let i = choose|i: int| 0 <= i < tokens(s).len() && tokens(s)[i] == t;
            if i == 0 {
                assert(tokens(r)[s.len() - 1] == t);
            } else {
                assert(tokens(r)[i - 1] == t);
            }
        }
    }
    if tokens(s).no_duplicates() {
        assert forall|i: int, j: int|
            0 <= i < tokens(r).len() && 0 <= j < tokens(r).len() && i != j implies tokens(r)[i]
            != tokens(r)[j] by {
            let a = if i < s.len() - 1 { i + 1 } else { 0 };
            let b = if j < s.len() - 1 { j + 1 } else { 0 };
            assert(tokens(r)[i] == tokens(s)[a]);
            assert(tokens(r)[j] == tokens(s)[b]);
        }
    }
}

/// A request keeps the pool well formed, timed, and its collections apart.
pub proof fn lemma_dispatch_keeps(p: PoolView, now: i64)
    ensures
        p.wf() ==> p.dispatch(now).wf(),
        p.exclusive() ==> p.dispatch(now).exclusive(),
        p.timed() ==> p.dispatch(now).timed(),
{
    let swept = p.reset(now);
    lemma_reset_keeps(p, now);
    if swept.valid.len() > 0 {
        lemma_rotate(swept.valid);
        let q = p.dispatch(now);
        if p.wf() {
            assert forall|t: Seq<char>| !(q.has_valid(t) && q.has_exhausted(t)) by {
                assert(!(swept.has_valid(t) && swept.has_exhausted(t)));
            }
        }
        if p.exclusive() {
            assert forall|t: Seq<char>| q.has_invalid(t) implies !q.has_valid(t)
                && !q.has_exhausted(t) by {
                assert(!swept.has_valid(t) && !swept.has_exhausted(t));
            }
        }
    }
}

/// Deleting a token keeps the pool well formed, timed, and its collections
/// apart, and leaves the pool without the token.
pub proof fn lemma_delete_keeps(p: PoolView, token: Seq<char>)
    ensures
        p.wf() ==> p.delete(token).wf(),
        p.exclusive() ==> p.delete(token).exclusive(),
        p.timed() ==> p.delete(token).timed(),
        !p.delete(token).knows(token),
        forall|t: Seq<char>| t != token ==> (p.delete(token).has_valid(t) <==> p.has_valid(t)),
        forall|t: Seq<char>|
            t != token ==> (p.delete(token).has_exhausted(t) <==> p.has_exhausted(t)),
        forall|t: Seq<char>| t != token ==> (p.delete(token).has_invalid(t) <==> p.has_invalid(t)),
{
    let q = p.delete(token);
    lemma_without(p.valid, token);
    lemma_without(p.exhausted, token);
    lemma_useless_without(p.invalid, token);
    if p.wf() {
        assert forall|t: Seq<char>| !(q.has_valid(t) && q.has_exhausted(t)) by {
            assert(!(p.has_valid(t) && p.has_exhausted(t)));
        }
    }
    if p.exclusive() {
        assert forall|t: Seq<char>| q.has_invalid(t) implies !q.has_valid(t) && !q.has_exhausted(
            t,
        ) by {
            assert(p.has_invalid(t));
        }
    }
    if p.timed() {
        assert forall|i: int| 0 <= i < q.valid.len() implies (#[trigger] q.valid[i]).reset_time
            is None by {
            p.valid.lemma_filter_contains_rev(other_than(token), q.valid[i]);
        }
        assert forall|i: int| 0 <= i < q.exhausted.len() implies (
        #[trigger] q.exhausted[i]).reset_time is Some by {
            p.exhausted.lemma_filter_contains_rev(other_than(token), q.exhausted[i]);
        }
    }
}

/// The pool restored from a store of credentials is well formed and timed,
/// has given up nothing, and knows exactly the tokens of the store.
pub proof fn lemma_restore_all(cookies: Seq<CookieView>)
    ensures
        cookies.fold_left(PoolView::empty(), restoring()).wf(),
        cookies.fold_left(PoolView::empty(), restoring()).timed(),
        cookies.fold_left(PoolView::empty(), restoring()).invalid == Seq::<UselessView>::empty(),
        forall|t: Seq<char>|
            {
                let p = cookies.fold_left(PoolView::empty(), restoring());
                p.has_valid(t) || p.has_exhausted(t) <==> #[trigger] tokens(cookies).contains(t)
            },
    decreases cookies.len(),
{
    let p = cookies.fold_left(PoolView::empty(), restoring());
    if cookies.len() > 0 {
        let init = cookies.drop_last();
        let last = cookies.last();
        let before = init.fold_left(PoolView::empty(), restoring());
        lemma_restore_all(init);
        lemma_push(before.valid, last);
        lemma_push(before.exhausted, last);
        lemma_push(init, last);
        assert(init.push(last) =~= cookies);
        assert(p == before.restore(last));
        assert forall|t: Seq<char>|
            p.has_valid(t) || p.has_exhausted(t) <==> #[trigger] tokens(cookies).contains(t) by {
            assert(before.has_valid(t) || before.has_exhausted(t) <==> tokens(init).contains(t));
        }
        assert forall|t: Seq<char>| !(p.has_valid(t) && p.has_exhausted(t)) by {
            assert(!(before.has_valid(t) && before.has_exhausted(t)));
        }
    } else {
        assert forall|t: Seq<char>| !tokens(cookies).contains(t) by {}
    }
}

/// Recording a store of given-up credentials leaves the rest of the pool as
/// it is, repeats no token, and adds exactly the tokens of the store.
pub proof fn lemma_restore_all_useless(p: PoolView, wasted: Seq<UselessView>)
    ensures
        wasted.fold_left(p, restoring_useless()).valid == p.valid,
        wasted.fold_left(p, restoring_useless()).exhausted == p.exhausted,
        useless_tokens(p.invalid).no_duplicates() ==> useless_tokens(
            wasted.fold_left(p, restoring_useless()).invalid,
        ).no_duplicates(),
        forall|t: Seq<char>| #[trigger]
            wasted.fold_left(p, restoring_useless()).has_invalid(t) <==> p.has_invalid(t)
                || useless_tokens(wasted).contains(t),
    decreases wasted.len(),
{
    let q = wasted.fold_left(p, restoring_useless());
    if wasted.len() > 0 {
        let init = wasted.drop_last();
        let last = wasted.last();
        let before = init.fold_left(p, restoring_useless());
        lemma_restore_all_useless(p, init);
        lemma_useless_push(before.invalid, last);
        lemma_useless_push(init, last);
        assert(init.push(last) =~= wasted);
        assert(q == before.restore_useless(last));
        assert forall|t: Seq<char>| #[trigger]
            q.has_invalid(t) <==> p.has_invalid(t) || useless_tokens(wasted).contains(t) by {
            assert(before.has_invalid(t) <==> p.has_invalid(t) || useless_tokens(init).contains(t));
        }
    } else {
        assert forall|t: Seq<char>| !useless_tokens(wasted).contains(t) by {}
    }
}

/// The pool loaded from the two stores is well formed and timed. Its
/// collections are apart if the stores share no token.
pub proof fn lemma_load_keeps(cookies: Seq<CookieView>, wasted: Seq<UselessView>)
    ensures
        PoolView::load(cookies, wasted).wf(),
        PoolView::load(cookies, wasted).timed(),
        (forall|t: Seq<char>| !(tokens(cookies).contains(t) && useless_tokens(wasted).contains(t)))
            ==> PoolView::load(cookies, wasted).exclusive(),
{
    let p = cookies.fold_left(PoolView::empty(), restoring());
    let q = PoolView::load(cookies, wasted);
    lemma_restore_all(cookies);
    lemma_restore_all_useless(p, wasted);
    assert forall|t: Seq<char>| !(q.has_valid(t) && q.has_exhausted(t)) by {
        assert(!(p.has_valid(t) && p.has_exhausted(t)));
    }
    assert forall|t: Seq<char>| !p.has_invalid(t) by {}
    if forall|t: Seq<char>| !(tokens(cookies).contains(t) && useless_tokens(wasted).contains(t)) {
        assert forall|t: Seq<char>| q.has_invalid(t) implies !q.has_valid(t) && !q.has_exhausted(
            t,
        ) by {
            assert(useless_tokens(wasted).contains(t));
            assert(!tokens(cookies).contains(t));
            assert(p.has_valid(t) || p.has_exhausted(t) <==> tokens(cookies).contains(t));
        }
    }
}

/// Stores in which no token occurs twice are loaded as they are: the
/// credentials without a reset time make up the rotation, those with one
/// rest, and the given-up ones are recorded, each in the order of its store.
pub proof fn lemma_load_distinct(cookies: Seq<CookieView>, wasted: Seq<UselessView>)
    requires
        tokens(cookies).no_duplicates(),
        useless_tokens(wasted).no_duplicates(),
    ensures
        PoolView::load(cookies, wasted) == (PoolView {
            valid: cookies.filter(without_reset_time()),
            exhausted: cookies.filter(with_reset_time()),
            invalid: wasted,
        }),
{
    lemma_restore_distinct(cookies);
    let p = cookies.fold_left(PoolView::empty(), restoring());
    lemma_restore_useless_distinct(p, wasted);
    assert(Seq::<UselessView>::empty() + wasted =~= wasted);
}

proof fn lemma_restore_distinct(cookies: Seq<CookieView>)
    requires
        tokens(cookies).no_duplicates(),
    ensures
        cookies.fold_left(PoolView::empty(), restoring()) == (PoolView {
            valid: cookies.filter(without_reset_time()),
            exhausted: cookies.filter(with_reset_time()),
            invalid: Seq::empty(),
        }),
    decreases cookies.len(),
{
    reveal(Seq::filter);
    if cookies.len() > 0 {
        let init = cookies.drop_last();
        let last = cookies.last();
        let before = init.fold_left(PoolView::empty(), restoring());
        assert(tokens(init).no_duplicates()) by {
            assert forall|i: int, j: int|
                0 <= i < init.len() && 0 <= j < init.len() && i != j implies tokens(init)[i]
                != tokens(init)[j] by {
                assert(tokens(cookies)[i] != tokens(cookies)[j]);
            }
        }
        lemma_restore_distinct(init);
        lemma_restore_all(init);
        assert(!tokens(init).contains(last.cookie)) by {
            if tokens(init).contains(last.cookie) {
                let i = choose|i: int| 0 <= i < tokens(init).len() && tokens(init)[i] == last.cookie;
                assert(tokens(cookies)[i] == tokens(cookies)[cookies.len() - 1]);
            }
        }
        assert(before.has_valid(last.cookie) || before.has_exhausted(last.cookie)
            <==> tokens(init).contains(last.cookie));
    }
}

proof fn lemma_restore_useless_distinct(p: PoolView, wasted: Seq<UselessView>)
    requires
        useless_tokens(wasted).no_duplicates(),
        forall|t: Seq<char>| useless_tokens(wasted).contains(t) ==> !p.has_invalid(t),
    ensures
        wasted.fold_left(p, restoring_useless()) == (PoolView {
            invalid: p.invalid + wasted,
            ..p
        }),
    decreases wasted.len(),
{
    if wasted.len() > 0 {
        let init = wasted.drop_last();
        let last = wasted.last();
        let before = init.fold_left(p, restoring_useless());
        assert(useless_tokens(init).no_duplicates()) by {
            assert forall|i: int, j: int|
                0 <= i < init.len() && 0 <= j < init.len() && i != j implies useless_tokens(
                init,
            )[i] != useless_tokens(init)[j] by {
                assert(useless_tokens(wasted)[i] != useless_tokens(wasted)[j]);
            }
        }
        assert forall|t: Seq<char>| useless_tokens(init).contains(t) implies !p.has_invalid(t) by {
            let i = choose|i: int| 0 <= i < useless_tokens(init).len() && useless_tokens(init)[i]
                == t;
            assert(useless_tokens(wasted)[i] == t);
        }
        lemma_restore_useless_distinct(p, init);
        lemma_restore_all_useless(p, init);
        assert(useless_tokens(wasted)[wasted.len() - 1] == last.cookie);
        assert(!useless_tokens(init).contains(last.cookie)) by {
            if useless_tokens(init).contains(last.cookie) {
                let i = choose|i: int|
                    0 <= i < useless_tokens(init).len() && useless_tokens(init)[i] == last.cookie;
                assert(useless_tokens(wasted)[i] == useless_tokens(wasted)[wasted.len() - 1]);
            }
        }
        assert(!before.has_invalid(last.cookie));
        assert((p.invalid + init).push(last) =~= p.invalid + wasted);
    } else {
        assert(p.invalid + wasted =~= p.invalid);
    }
}

/// Whatever the pool is asked to do, it stays well formed and timed, and
/// its collections stay apart. An event that asks for no storing leaves a
/// well-formed pool with its collections apart as it was; the one exception
/// is a request, which turns the rotation.
pub proof fn lemma_run_keeps(p: PoolView, event: EventView, now: i64)
    ensures
        p.wf() ==> p.run(event, now).wf(),
        p.timed() ==> p.run(event, now).timed(),
        p.exclusive() ==> p.run(event, now).exclusive(),
        !p.stores(event, now) && !(event is Request) && p.wf() && p.exclusive() ==> p.run(
            event,
            now,
        ) == p,
{
    match event {
        EventView::Return(cookie, reason) => lemma_collect_keeps(p, cookie, reason),
        EventView::Submit(cookie) => lemma_accept_keeps(p, cookie),
        EventView::CheckReset => lemma_reset_keeps(p, now),
        EventView::Request => lemma_dispatch_keeps(p, now),
        EventView::GetStatus => {},
        EventView::Delete(cookie) => lemma_delete_keeps(p, cookie.cookie),
    }
}

} // verus!
