//! The credential pool: which credential serves next, which ones rest, and
//! which ones are lost.
//!
//! [`CookieManager`] owns the three collections and is changed by one owner
//! only, one event at a time. It performs no I/O: an operation that changes
//! what has to be stored says so in its result, and [`CookieManager::save`]
//! gives what is to be written.
use std::collections::VecDeque;
use vstd::prelude::*;

use crate::config::{CookieStatus, CookieView, Reason, UselessCookie, UselessView};
use crate::error::ClewdrError;
use crate::services::pool::{
    due_at, other_than, resting_at, restoring, restoring_useless, revived, tokens,
    useless_other_than, useless_tokens, EventView, PoolView, ReplyView,
};
use crate::services::pool_invariants::{
    lemma_accept_keeps, lemma_collect_keeps, lemma_delete_keeps, lemma_dispatch_keeps,
    lemma_load_keeps, lemma_reset_keeps, lemma_run_keeps,
};

verus! {

/// The views of the credentials in `s`, in order.
pub open spec fn views(s: Seq<CookieStatus>) -> Seq<CookieView> {
    s.map_values(|c: CookieStatus| c@)
}

/// The views of the given-up credentials in `s`, in order.
pub open spec fn useless_views(s: Seq<UselessCookie>) -> Seq<UselessView> {
    s.map_values(|u: UselessCookie| u@)
}

/// A snapshot of the pool for observers.
#[derive(Debug)]
pub struct CookieStatusInfo {
    /// The rotation, front first.
    pub valid: Vec<CookieStatus>,
    /// The resting credentials.
    pub exhausted: Vec<CookieStatus>,
    /// The credentials given up, with the reasons.
    pub invalid: Vec<UselessCookie>,
}

impl View for CookieStatusInfo {
    type V = PoolView;

    open spec fn view(&self) -> PoolView {
        PoolView {
            valid: views(self.valid@),
            exhausted: views(self.exhausted@),
            invalid: useless_views(self.invalid@),
        }
    }
}

/// What the pool is asked to do. Events are handled one at a time, in the
/// order in which they arrive.
#[derive(Debug)]
pub enum CookieEvent {
    /// Return a credential, with the reason if there is one.
    Return(CookieStatus, Option<Reason>),
    /// Submit a new credential.
    Submit(CookieStatus),
    /// Check for credentials whose rest is over.
    CheckReset,
    /// Ask for a credential.
    Request,
    /// Ask for a snapshot of the pool.
    GetStatus,
    /// Delete a credential.
    Delete(CookieStatus),
}

impl View for CookieEvent {
    type V = EventView;

    open spec fn view(&self) -> EventView {
        match self {
            CookieEvent::Return(cookie, reason) => EventView::Return(cookie@, *reason),
            CookieEvent::Submit(cookie) => EventView::Submit(cookie@),
            CookieEvent::CheckReset => EventView::CheckReset,
            CookieEvent::Request => EventView::Request,
            CookieEvent::GetStatus => EventView::GetStatus,
            CookieEvent::Delete(cookie) => EventView::Delete(cookie@),
        }
    }
}

/// What the pool answers to an event.
#[derive(Debug)]
pub enum CookieReply {
    /// Nothing: nobody waits for an answer to the event.
    Done,
    /// The answer to [`CookieEvent::Request`].
    Cookie(Result<CookieStatus, ClewdrError>),
    /// The answer to [`CookieEvent::GetStatus`].
    Status(CookieStatusInfo),
    /// The answer to [`CookieEvent::Delete`].
    Deleted(Result<(), ClewdrError>),
}

impl View for CookieReply {
    type V = ReplyView;

    open spec fn view(&self) -> ReplyView {
        match self {
            CookieReply::Done => ReplyView::Done,
            CookieReply::Cookie(Ok(cookie)) => ReplyView::Cookie(Ok(cookie@)),
            CookieReply::Cookie(Err(e)) => ReplyView::Cookie(Err(e@)),
            CookieReply::Status(info) => ReplyView::Status(info@),
            CookieReply::Deleted(Ok(())) => ReplyView::Deleted(Ok(())),
            CookieReply::Deleted(Err(e)) => ReplyView::Deleted(Err(e@)),
        }
    }
}

/// The outcome of one event.
#[derive(Debug)]
pub struct Handled {
    /// The answer for whoever sent the event.
    pub reply: CookieReply,
    /// Whether the pool has to be stored again, and its size logged.
    pub changed: bool,
}

/// The credential pool.
pub struct CookieManager {
    valid: VecDeque<CookieStatus>,
    exhausted: Vec<CookieStatus>,
    invalid: Vec<UselessCookie>,
}

impl View for CookieManager {
    type V = PoolView;

    closed spec fn view(&self) -> PoolView {
        PoolView {
            valid: views(self.valid@),
            exhausted: views(self.exhausted@),
            invalid: useless_views(self.invalid@),
        }
    }
}

proof fn lemma_views_push(s: Seq<CookieStatus>, c: CookieStatus)
    ensures
        views(s.push(c)) == views(s).push(c@),
{
    s.lemma_push_map_commute(|c: CookieStatus| c@, c);
}

proof fn lemma_useless_views_push(s: Seq<UselessCookie>, u: UselessCookie)
    ensures
        useless_views(s.push(u)) == useless_views(s).push(u@),
{
    s.lemma_push_map_commute(|u: UselessCookie| u@, u);
}

/// Whether a credential in `v` has the token `token`.
fn deque_has(v: &VecDeque<CookieStatus>, token: &String) -> (found: bool)
    ensures
        found == tokens(views(v@)).contains(token@),
{
    let mut i: usize = 0;
    while i < v.len()
        invariant
            i <= v@.len(),
            forall|j: int| 0 <= j < i ==> tokens(views(v@))[j] != token@,
        decreases v@.len() - i,
    {
        if v[i].cookie == *token {
            assert(tokens(views(v@))[i as int] == token@);
            return true;
        }
        i += 1;
    }
    false
}

/// Whether a credential in `v` has the token `token`.
fn vec_has(v: &Vec<CookieStatus>, token: &String) -> (found: bool)
    ensures
        found == tokens(views(v@)).contains(token@),
{
    let mut i: usize = 0;
    while i < v.len()
        invariant
            i <= v@.len(),
            forall|j: int| 0 <= j < i ==> tokens(views(v@))[j] != token@,
        decreases v@.len() - i,
    {
        if v[i].cookie == *token {
            assert(tokens(views(v@))[i as int] == token@);
            return true;
        }
        i += 1;
    }
    false
}

/// Whether a given-up credential in `v` has the token `token`.
fn useless_has(v: &Vec<UselessCookie>, token: &String) -> (found: bool)
    ensures
        found == useless_tokens(useless_views(v@)).contains(token@),
{
    let mut i: usize = 0;
    while i < v.len()
        invariant
            i <= v@.len(),
            forall|j: int| 0 <= j < i ==> useless_tokens(useless_views(v@))[j] != token@,
        decreases v@.len() - i,
    {
        if v[i].cookie == *token {
            assert(useless_tokens(useless_views(v@))[i as int] == token@);
            return true;
        }
        i += 1;
    }
    false
}

/// The credentials of `v` whose token is not `token`, in order.
fn deque_without(v: &VecDeque<CookieStatus>, token: &String) -> (kept: VecDeque<CookieStatus>)
    ensures
        views(kept@) == views(v@).filter(other_than(token@)),
{
    let mut kept: VecDeque<CookieStatus> = VecDeque::new();
    let mut i: usize = 0;
    proof {
        reveal(Seq::filter);
    }
    while i < v.len()
        invariant
            i <= v@.len(),
            views(kept@) == views(v@).take(i as int).filter(other_than(token@)),
        decreases v@.len() - i,
    {
        proof {
            views(v@).lemma_take_succ_push(i as int);
            views(v@).take(i as int).lemma_filter_push(views(v@)[i as int], other_than(token@));
        }
        if !(v[i].cookie == *token) {
            let c = v[i].clone();
            proof {
                lemma_views_push(kept@, c);
            }
            kept.push_back(c);
        }
        i += 1;
    }
    assert(views(v@).take(i as int) =~= views(v@));
    kept
}

/// The credentials of `v` whose token is not `token`, in order.
fn vec_without(v: &Vec<CookieStatus>, token: &String) -> (kept: Vec<CookieStatus>)
    ensures
        views(kept@) == views(v@).filter(other_than(token@)),
{
    let mut kept: Vec<CookieStatus> = Vec::new();
    let mut i: usize = 0;
    proof {
        reveal(Seq::filter);
    }
    while i < v.len()
        invariant
            i <= v@.len(),
            views(kept@) == views(v@).take(i as int).filter(other_than(token@)),
        decreases v@.len() - i,
    {
        proof {
            views(v@).lemma_take_succ_push(i as int);
            views(v@).take(i as int).lemma_filter_push(views(v@)[i as int], other_than(token@));
        }
        if !(v[i].cookie == *token) {
            let c = v[i].clone();
            proof {
                lemma_views_push(kept@, c);
            }
            kept.push(c);
        }
        i += 1;
    }
    assert(views(v@).take(i as int) =~= views(v@));
    kept
}

/// The given-up credentials of `v` whose token is not `token`, in order.
fn useless_without(v: &Vec<UselessCookie>, token: &String) -> (kept: Vec<UselessCookie>)
    ensures
        useless_views(kept@) == useless_views(v@).filter(useless_other_than(token@)),
{
    let mut kept: Vec<UselessCookie> = Vec::new();
    let mut i: usize = 0;
    proof {
        reveal(Seq::filter);
    }
    while i < v.len()
        invariant
            i <= v@.len(),
            useless_views(kept@) == useless_views(v@).take(i as int).filter(
                useless_other_than(token@),
            ),
        decreases v@.len() - i,
    {
        proof {
            useless_views(v@).lemma_take_succ_push(i as int);
            useless_views(v@).take(i as int).lemma_filter_push(
                useless_views(v@)[i as int],
                useless_other_than(token@),
            );
        }
        if !(v[i].cookie == *token) {
            let u = v[i].clone();
            proof {
                lemma_useless_views_push(kept@, u);
            }
            kept.push(u);
        }
        i += 1;
    }
    assert(useless_views(v@).take(i as int) =~= useless_views(v@));
    kept
}

impl CookieManager {
    /// The pool that the credential store describes.
    ///
    /// `cookie_array` holds the credentials in rotation and at rest: one with
    /// a reset time starts at rest, one without starts in rotation, in the
    /// order of the store. `wasted_cookie` holds those given up. An entry
    /// whose token came earlier in its store is passed over. The pool is
    /// well formed; no credential is in two of its collections if the two
    /// stores share no token.
    pub fn start(cookie_array: Vec<CookieStatus>, wasted_cookie: Vec<UselessCookie>) -> (pool: Self)
        ensures
            pool@ == PoolView::load(views(cookie_array@), useless_views(wasted_cookie@)),
            pool@.wf(),
            pool@.timed(),
            (forall|t: Seq<char>|
                !(tokens(views(cookie_array@)).contains(t) && useless_tokens(
                    useless_views(wasted_cookie@),
                ).contains(t))) ==> pool@.exclusive(),
    {
        proof {
            lemma_load_keeps(views(cookie_array@), useless_views(wasted_cookie@));
        }
        let mut pool = CookieManager {
            valid: VecDeque::new(),
            exhausted: Vec::new(),
            invalid: Vec::new(),
        };
        let ghost cookies = views(cookie_array@);
        let ghost wasted = useless_views(wasted_cookie@);
        let mut i: usize = 0;
        while i < cookie_array.len()
            invariant
                i <= cookie_array@.len(),
                cookies == views(cookie_array@),
                pool@ == cookies.take(i as int).fold_left(PoolView::empty(), restoring()),
            decreases cookie_array@.len() - i,
        {
            let c = cookie_array[i].clone();
            proof {
                cookies.lemma_take_succ_push(i as int);
                assert(cookies.take(i + 1).drop_last() =~= cookies.take(i as int));
                lemma_views_push(pool.valid@, c);
                lemma_views_push(pool.exhausted@, c);
            }
            if !(deque_has(&pool.valid, &c.cookie) || vec_has(&pool.exhausted, &c.cookie)) {
                if c.reset_time.is_some() {
                    pool.exhausted.push(c);
                } else {
                    pool.valid.push_back(c);
                }
            }
            i += 1;
        }
        let ghost restored = pool@;
        let mut j: usize = 0;
        while j < wasted_cookie.len()
            invariant
                j <= wasted_cookie@.len(),
                wasted == useless_views(wasted_cookie@),
                pool@ == wasted.take(j as int).fold_left(restored, restoring_useless()),
            decreases wasted_cookie@.len() - j,
        {
            let u = wasted_cookie[j].clone();
            proof {
                wasted.lemma_take_succ_push(j as int);
                assert(wasted.take(j + 1).drop_last() =~= wasted.take(j as int));
                lemma_useless_views_push(pool.invalid@, u);
            }
            if !useless_has(&pool.invalid, &u.cookie) {
                pool.invalid.push(u);
            }
            j += 1;
        }
        pool
    }

    /// Moves every resting credential whose reset time has been reached at
    /// time `now` to the back of the rotation, without its reset time.
    ///
    /// Returns whether anything moved, that is, whether the pool has to be
    /// stored again.
    pub fn reset(&mut self, now: i64) -> (changed: bool)
        ensures
            final(self)@ == old(self)@.reset(now),
            changed == old(self)@.sweeps(now),
            old(self)@.wf() ==> final(self)@.wf(),
            old(self)@.exclusive() ==> final(self)@.exclusive(),
            old(self)@.timed() ==> final(self)@.timed(),
    {
        proof {
            lemma_reset_keeps(self@, now);
        }
        let ghost valid = views(self.valid@);
        let ghost resting = views(self.exhausted@);
        let mut kept: Vec<CookieStatus> = Vec::new();
        let mut changed = false;
        let mut i: usize = 0;
        proof {
            reveal(Seq::filter);
        }
        while i < self.exhausted.len()
            invariant
                i <= self.exhausted@.len(),
                self.exhausted == old(self).exhausted,
                self.invalid == old(self).invalid,
                resting == views(self.exhausted@),
                views(self.valid@) == valid + resting.take(i as int).filter(due_at(now)).map_values(
                    revived(),
                ),
                views(kept@) == resting.take(i as int).filter(resting_at(now)),
                changed == (resting.take(i as int).filter(due_at(now)).len() > 0),
            decreases self.exhausted@.len() - i,
        {
            let c = self.exhausted[i].clone();
            proof {
                let before = resting.take(i as int);
                resting.lemma_take_succ_push(i as int);
                before.lemma_filter_push(c@, due_at(now));
                before.lemma_filter_push(c@, resting_at(now));
            }
            match c.reset_time {
                Some(t) if t > now => {
                    proof {
                        lemma_views_push(kept@, c);
                    }
                    kept.push(c);
                },
                _ => {
                    let back = CookieStatus { cookie: c.cookie, reset_time: None };
                    proof {
                        let due = resting.take(i as int).filter(due_at(now));
                        lemma_views_push(self.valid@, back);
                        due.lemma_push_map_commute(revived(), c@);
                        assert(valid + due.map_values(revived()).push(back@) =~= (valid
                            + due.map_values(revived())).push(back@));
                    }
                    self.valid.push_back(back);
                    changed = true;
                },
            }
            i += 1;
        }
        assert(resting.take(i as int) =~= resting);
        self.exhausted = kept;
        changed
    }

    /// Hands out the next credential at time `now`.
    ///
    /// The sweep of [`reset`](Self::reset) runs first. Then the front of the
    /// rotation is handed out and moves to the back; with an empty rotation
    /// the request fails with [`ClewdrError::NoCookieAvailable`]. The second
    /// component says whether the sweep moved anything.
    pub fn dispatch(&mut self, now: i64) -> (res: (Result<CookieStatus, ClewdrError>, bool))
        ensures
            final(self)@ == old(self)@.dispatch(now),
            res.1 == old(self)@.sweeps(now),
            match res.0 {
                Ok(cookie) => old(self)@.dispatched(now) == Some(cookie@),
                Err(e) => old(self)@.dispatched(now) is None && e == ClewdrError::NoCookieAvailable,
            },
            old(self)@.wf() ==> final(self)@.wf(),
            old(self)@.exclusive() ==> final(self)@.exclusive(),
            old(self)@.timed() ==> final(self)@.timed(),
    {
        proof {
            lemma_dispatch_keeps(self@, now);
        }
        let swept = self.reset(now);
        let ghost before = self.valid@;
        match self.valid.pop_front() {
            Some(cookie) => {
                let back = cookie.clone();
                proof {
                    assert(views(before.subrange(1, before.len() as int)) =~= views(
                        before,
                    ).drop_first());
                    lemma_views_push(before.subrange(1, before.len() as int), back);
                }
                self.valid.push_back(back);
                (Ok(cookie), swept)
            },
            None => (Err(ClewdrError::NoCookieAvailable), swept),
        }
    }

    /// Takes back `cookie`, which was returned with `reason`.
    ///
    /// Without a reason, or with [`Reason::NormalPro`], nothing happens: the
    /// credential went back into rotation when it was handed out. A reason
    /// with a reset time takes the credential out of rotation and puts it to
    /// rest until then; if it rests already, it keeps the reset time it has,
    /// and if it has been given up, it stays given up and does not rest. Any
    /// other reason takes it out of rotation and out of rest and records it
    /// as given up for that reason; if it is recorded already, the record
    /// stays.
    ///
    /// Returns whether the pool has to be stored again.
    pub fn collect(&mut self, cookie: CookieStatus, reason: Option<Reason>) -> (changed: bool)
        ensures
            final(self)@ == old(self)@.collect(cookie@, reason),
            changed == old(self)@.collects(cookie@, reason),
            old(self)@.wf() ==> final(self)@.wf(),
            old(self)@.exclusive() ==> final(self)@.exclusive(),
            old(self)@.timed() ==> final(self)@.timed(),
    {
        proof {
            lemma_collect_keeps(self@, cookie@, reason);
        }
        let reason = match reason {
            Some(Reason::NormalPro) | None => {
                return false;
            },
            Some(r) => r,
        };
        self.valid = deque_without(&self.valid, &cookie.cookie);
        match reason.reset_time() {
            Some(t) => {
                if vec_has(&self.exhausted, &cookie.cookie) || useless_has(
                    &self.invalid,
                    &cookie.cookie,
                ) {
                    return false;
                }
                let resting = CookieStatus { cookie: cookie.cookie, reset_time: Some(t) };
                proof {
                    lemma_views_push(self.exhausted@, resting);
                }
                self.exhausted.push(resting);
            },
            None => {
                self.exhausted = vec_without(&self.exhausted, &cookie.cookie);
                if useless_has(&self.invalid, &cookie.cookie) {
                    return false;
                }
                let useless = UselessCookie::new(cookie.cookie, reason);
                proof {
                    lemma_useless_views_push(self.invalid@, useless);
                }
                self.invalid.push(useless);
            },
        }
        true
    }

    /// Takes in the newly submitted `cookie`.
    ///
    /// A credential whose token the pool knows, in rotation, at rest or
    /// given up, is turned away. Any other joins the back of the rotation,
    /// without the reset time it may carry.
    ///
    /// Returns whether it joined, that is, whether the pool has to be stored
    /// again.
    pub fn accept(&mut self, cookie: CookieStatus) -> (accepted: bool)
        ensures
            final(self)@ == old(self)@.accept(cookie@),
            accepted == !old(self)@.knows(cookie@.cookie),
            old(self)@.wf() ==> final(self)@.wf(),
            old(self)@.exclusive() ==> final(self)@.exclusive(),
            old(self)@.timed() ==> final(self)@.timed(),
    {
        proof {
            lemma_accept_keeps(self@, cookie@);
        }
        if deque_has(&self.valid, &cookie.cookie) || vec_has(&self.exhausted, &cookie.cookie)
            || useless_has(&self.invalid, &cookie.cookie) {
            return false;
        }
        let joined = CookieStatus { cookie: cookie.cookie, reset_time: None };
        proof {
            lemma_views_push(self.valid@, joined);
        }
        self.valid.push_back(joined);
        true
    }

    /// A snapshot of the three collections.
    pub fn report(&self) -> (info: CookieStatusInfo)
        ensures
            info@ == self@,
    {
        let mut valid: Vec<CookieStatus> = Vec::new();
        let mut i: usize = 0;
        while i < self.valid.len()
            invariant
                i <= self.valid@.len(),
                valid@ == self.valid@.take(i as int),
            decreases self.valid@.len() - i,
        {
            valid.push(self.valid[i].clone());
            i += 1;
        }
        let exhausted = self.exhausted.clone();
        let invalid = self.invalid.clone();
        CookieStatusInfo { valid, exhausted, invalid }
    }

    /// Removes the credential with the token of `cookie` from wherever the
    /// pool holds it.
    ///
    /// Fails with [`ClewdrError::UnexpectedNone`], and changes nothing, if
    /// the pool does not know the token. On success the pool has to be
    /// stored again.
    pub fn delete(&mut self, cookie: CookieStatus) -> (res: Result<(), ClewdrError>)
        ensures
            res is Ok <==> old(self)@.knows(cookie@.cookie),
            res is Ok ==> final(self)@ == old(self)@.delete(cookie@.cookie),
            res matches Err(e) ==> e == ClewdrError::UnexpectedNone && final(self)@ == old(self)@,
            old(self)@.wf() ==> final(self)@.wf(),
            old(self)@.exclusive() ==> final(self)@.exclusive(),
            old(self)@.timed() ==> final(self)@.timed(),
    {
        proof {
            lemma_delete_keeps(self@, cookie@.cookie);
        }
        let found = deque_has(&self.valid, &cookie.cookie) || vec_has(
            &self.exhausted,
            &cookie.cookie,
        ) || useless_has(&self.invalid, &cookie.cookie);
        if !found {
            return Err(ClewdrError::UnexpectedNone);
        }
        self.valid = deque_without(&self.valid, &cookie.cookie);
        self.exhausted = vec_without(&self.exhausted, &cookie.cookie);
        self.invalid = useless_without(&self.invalid, &cookie.cookie);
        Ok(())
    }

    /// What the credential store has to hold for this pool: first the
    /// credentials in rotation followed by those at rest, second those given
    /// up.
    pub fn save(&self) -> (stores: (Vec<CookieStatus>, Vec<UselessCookie>))
        ensures
            views(stores.0@) == self@.valid + self@.exhausted,
            useless_views(stores.1@) == self@.invalid,
    {
        let info = self.report();
        let mut cookies = info.valid;
        let mut resting = info.exhausted;
        cookies.append(&mut resting);
        (cookies, info.invalid)
    }

    /// Handles one event at time `now`.
    ///
    /// This is the whole of the pool's behaviour: whoever owns the pool
    /// feeds it the events in the order of their arrival, sends the answer
    /// to whoever waits for it, and stores the pool when told to.
    pub fn run(&mut self, event: CookieEvent, now: i64) -> (out: Handled)
        ensures
            final(self)@ == old(self)@.run(event@, now),
            out.reply@ == old(self)@.reply(event@, now),
            out.changed == old(self)@.stores(event@, now),
            old(self)@.wf() ==> final(self)@.wf(),
            old(self)@.exclusive() ==> final(self)@.exclusive(),
            old(self)@.timed() ==> final(self)@.timed(),
    {
        proof {
            lemma_run_keeps(self@, event@, now);
        }
        match event {
            CookieEvent::Return(cookie, reason) => {
                let changed = self.collect(cookie, reason);
                Handled { reply: CookieReply::Done, changed }
            },
            CookieEvent::Submit(cookie) => {
                let changed = self.accept(cookie);
                Handled { reply: CookieReply::Done, changed }
            },
            CookieEvent::CheckReset => {
                let changed = self.reset(now);
                Handled { reply: CookieReply::Done, changed }
            },
            CookieEvent::Request => {
                let (cookie, changed) = self.dispatch(now);
                Handled { reply: CookieReply::Cookie(cookie), changed }
            },
            CookieEvent::GetStatus => {
                let info = self.report();
                Handled { reply: CookieReply::Status(info), changed: false }
            },
            CookieEvent::Delete(cookie) => {
                let res = self.delete(cookie);
                let changed = res.is_ok();
                Handled { reply: CookieReply::Deleted(res), changed }
            },
        }
    }
}

} // verus!
