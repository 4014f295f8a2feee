//! The credential pool as a mathematical value, and its transitions.
//!
//! A pool is three sequences of credentials: those in rotation, those that
//! rest until a known time, and those given up for good. Every operation of
//! [`CookieManager`](crate::services::cookie_manager::CookieManager) is
//! specified as a function on this value.
use vstd::prelude::*;

use crate::config::{CookieView, Reason, UselessView};
use crate::error::ErrorView;

verus! {

/// Takes the token of a credential.
pub open spec fn token_of() -> spec_fn(CookieView) -> Seq<char> {
    |c: CookieView| c.cookie
}

/// Takes the token of a given-up credential.
pub open spec fn useless_token_of() -> spec_fn(UselessView) -> Seq<char> {
    |u: UselessView| u.cookie
}

/// The tokens of `s`, in order.
pub open spec fn tokens(s: Seq<CookieView>) -> Seq<Seq<char>> {
    s.map_values(token_of())
}

/// The tokens of the given-up credentials `s`, in order.
pub open spec fn useless_tokens(s: Seq<UselessView>) -> Seq<Seq<char>> {
    s.map_values(useless_token_of())
}

/// Selects the credentials whose token is not `token`.
pub open spec fn other_than(token: Seq<char>) -> spec_fn(CookieView) -> bool {
    |c: CookieView| c.cookie != token
}

/// Selects the given-up credentials whose token is not `token`.
pub open spec fn useless_other_than(token: Seq<char>) -> spec_fn(UselessView) -> bool {
    |u: UselessView| u.cookie != token
}

/// Selects the credentials whose rest is over at time `now`.
pub open spec fn due_at(now: i64) -> spec_fn(CookieView) -> bool {
    |c: CookieView| c.due(now)
}

/// Selects the credentials that still rest at time `now`.
pub open spec fn resting_at(now: i64) -> spec_fn(CookieView) -> bool {
    |c: CookieView| !c.due(now)
}

/// Clears the reset time of a credential.
pub open spec fn revived() -> spec_fn(CookieView) -> CookieView {
    |c: CookieView| CookieView { cookie: c.cookie, reset_time: None }
}

/// Selects the credentials that carry a reset time.
pub open spec fn with_reset_time() -> spec_fn(CookieView) -> bool {
    |c: CookieView| c.reset_time is Some
}

/// Selects the credentials that carry no reset time.
pub open spec fn without_reset_time() -> spec_fn(CookieView) -> bool {
    |c: CookieView| c.reset_time is None
}

/// [`PoolView::run`] as a function to fold with, over events paired with the
/// time at which each is handled.
pub open spec fn running() -> spec_fn(PoolView, (EventView, i64)) -> PoolView {
    |p: PoolView, e: (EventView, i64)| p.run(e.0, e.1)
}

/// [`PoolView::dispatch`] as a function to fold with, over the times of the
/// requests.
pub open spec fn requesting() -> spec_fn(PoolView, i64) -> PoolView {
    |p: PoolView, now: i64| p.dispatch(now)
}

/// [`PoolView::restore`] as a function to fold with.
pub open spec fn restoring() -> spec_fn(PoolView, CookieView) -> PoolView {
    |p: PoolView, c: CookieView| p.restore(c)
}

/// [`PoolView::restore_useless`] as a function to fold with.
pub open spec fn restoring_useless() -> spec_fn(PoolView, UselessView) -> PoolView {
    |p: PoolView, u: UselessView| p.restore_useless(u)
}

/// The state of the credential pool.
#[verifier::ext_equal]
pub struct PoolView {
    /// Credentials in rotation; the front is the next to be handed out.
    pub valid: Seq<CookieView>,
    /// Credentials that rest until their reset time.
    pub exhausted: Seq<CookieView>,
    /// Credentials given up for good, each with the reason.
    pub invalid: Seq<UselessView>,
}

/// What the pool is asked to do.
pub enum EventView {
    /// A credential comes back from a lease, with or without a reason.
    Return(CookieView, Option<Reason>),
    /// A new credential is submitted.
    Submit(CookieView),
    /// The periodic sweep is due.
    CheckReset,
    /// A credential is asked for.
    Request,
    /// A snapshot is asked for.
    GetStatus,
    /// A credential is to be removed.
    Delete(CookieView),
}

/// What the pool answers.
pub enum ReplyView {
    /// Nothing: nobody waits for an answer to the event.
    Done,
    /// The credential asked for, or why there is none.
    Cookie(Result<CookieView, ErrorView>),
    /// The snapshot asked for.
    Status(PoolView),
    /// Whether the credential was removed.
    Deleted(Result<(), ErrorView>),
}

impl PoolView {
    /// The pool without any credential.
    pub open spec fn empty() -> PoolView {
        PoolView { valid: Seq::empty(), exhausted: Seq::empty(), invalid: Seq::empty() }
    }

    /// Whether a credential with this token is in rotation.
    pub open spec fn has_valid(self, token: Seq<char>) -> bool {
        tokens(self.valid).contains(token)
    }

    /// Whether a credential with this token is resting.
    pub open spec fn has_exhausted(self, token: Seq<char>) -> bool {
        tokens(self.exhausted).contains(token)
    }

    /// Whether a credential with this token has been given up.
    pub open spec fn has_invalid(self, token: Seq<char>) -> bool {
        useless_tokens(self.invalid).contains(token)
    }

    /// Whether the pool knows this token at all.
    pub open spec fn knows(self, token: Seq<char>) -> bool {
        self.has_valid(token) || self.has_exhausted(token) || self.has_invalid(token)
    }

    /// The invariant that every operation keeps: no token occurs twice within
    /// one collection, and none is both in rotation and resting.
    pub open spec fn wf(self) -> bool {
        &&& tokens(self.valid).no_duplicates()
        &&& tokens(self.exhausted).no_duplicates()
        &&& useless_tokens(self.invalid).no_duplicates()
        &&& forall|t: Seq<char>| !(self.has_valid(t) && self.has_exhausted(t))
    }

    /// No token that has been given up is also in rotation or resting.
    ///
    /// Together with [`wf`](Self::wf) this says that a credential lives in at
    /// most one of the three collections.
    pub open spec fn exclusive(self) -> bool {
        forall|t: Seq<char>| self.has_invalid(t) ==> !self.has_valid(t) && !self.has_exhausted(t)
    }

    /// Credentials in rotation carry no reset time, resting ones carry one.
    pub open spec fn timed(self) -> bool {
        &&& forall|i: int| 0 <= i < self.valid.len() ==> (#[trigger] self.valid[i]).reset_time is None
        &&& forall|i: int|
            0 <= i < self.exhausted.len() ==> (#[trigger] self.exhausted[i]).reset_time is Some
    }

    /// Whether a sweep at time `now` moves anything.
    pub open spec fn sweeps(self, now: i64) -> bool {
        self.exhausted.filter(due_at(now)).len() > 0
    }

    /// The sweep at time `now`: every resting credential whose reset time has
    /// been reached loses it and joins the back of the rotation, in the order
    /// in which they came to rest.
    pub open spec fn reset(self, now: i64) -> PoolView {
        PoolView {
            valid: self.valid + self.exhausted.filter(due_at(now)).map_values(revived()),
            exhausted: self.exhausted.filter(resting_at(now)),
            invalid: self.invalid,
        }
    }

    /// The credential that a request at time `now` receives, if any: the
    /// front of the rotation after the sweep.
    pub open spec fn dispatched(self, now: i64) -> Option<CookieView> {
        let swept = self.reset(now);
        if swept.valid.len() > 0 {
            Some(swept.valid[0])
        } else {
            None
        }
    }

    /// The pool after a request at time `now`: swept, and with the front of
    /// the rotation moved to its back.
    pub open spec fn dispatch(self, now: i64) -> PoolView {
        let swept = self.reset(now);
        if swept.valid.len() > 0 {
            PoolView { valid: swept.valid.drop_first().push(swept.valid[0]), ..swept }
        } else {
            swept
        }
    }

    /// Whether returning `cookie` with `reason` changes what has to be
    /// stored: the reason retires the credential, for a time or for good,
    /// and it is not yet where the reason sends it. A credential that has
    /// been given up is not sent to rest any more.
    pub open spec fn collects(self, cookie: CookieView, reason: Option<Reason>) -> bool {
        match reason {
            None => false,
            Some(Reason::NormalPro) => false,
            Some(r) => if r.reset_at() is Some {
                !self.has_exhausted(cookie.cookie) && !self.has_invalid(cookie.cookie)
            } else {
                !self.has_invalid(cookie.cookie)
            },
        }
    }

    /// The pool after `cookie` came back with `reason`.
    ///
    /// Without a reason, or with [`Reason::NormalPro`], nothing happens. A
    /// reason with a reset time takes the credential out of rotation and
    /// puts it to rest until then, unless it rests already or has been
    /// given up: what is given up stays so. Any other reason takes it out
    /// of rotation and out of rest and records it as given up, unless it is
    /// so recorded already.
    pub open spec fn collect(self, cookie: CookieView, reason: Option<Reason>) -> PoolView {
        match reason {
            None => self,
            Some(Reason::NormalPro) => self,
            Some(r) => {
                let valid = self.valid.filter(other_than(cookie.cookie));
                if r.reset_at() is Some {
                    if self.has_exhausted(cookie.cookie) || self.has_invalid(cookie.cookie) {
                        PoolView { valid, ..self }
                    } else {
                        PoolView {
                            valid,
                            exhausted: self.exhausted.push(
                                CookieView { cookie: cookie.cookie, reset_time: r.reset_at() },
                            ),
                            ..self
                        }
                    }
                } else {
                    let exhausted = self.exhausted.filter(other_than(cookie.cookie));
                    if self.has_invalid(cookie.cookie) {
                        PoolView { valid, exhausted, ..self }
                    } else {
                        PoolView {
                            valid,
                            exhausted,
                            invalid: self.invalid.push(
                                UselessView { cookie: cookie.cookie, reason: r },
                            ),
                        }
                    }
                }
            },
        }
    }

    /// The pool after `cookie` was submitted: appended to the rotation
    /// without a reset time, unless the pool knows its token already.
    pub open spec fn accept(self, cookie: CookieView) -> PoolView {
        if self.knows(cookie.cookie) {
            self
        } else {
            PoolView {
                valid: self.valid.push(CookieView { cookie: cookie.cookie, reset_time: None }),
                ..self
            }
        }
    }

    /// The pool without any credential whose token is `token`.
    pub open spec fn delete(self, token: Seq<char>) -> PoolView {
        PoolView {
            valid: self.valid.filter(other_than(token)),
            exhausted: self.exhausted.filter(other_than(token)),
            invalid: self.invalid.filter(useless_other_than(token)),
        }
    }

    /// The pool with one more entry of the credential store: a credential
    /// with a reset time goes to rest, one without joins the rotation, and
    /// one whose token is already in either place is passed over.
    pub open spec fn restore(self, cookie: CookieView) -> PoolView {
        if self.has_valid(cookie.cookie) || self.has_exhausted(cookie.cookie) {
            self
        } else if cookie.reset_time is Some {
            PoolView { exhausted: self.exhausted.push(cookie), ..self }
        } else {
            PoolView { valid: self.valid.push(cookie), ..self }
        }
    }

    /// The pool with one more entry of the store of given-up credentials;
    /// one whose token is already recorded is passed over.
    pub open spec fn restore_useless(self, useless: UselessView) -> PoolView {
        if self.has_invalid(useless.cookie) {
            self
        } else {
            PoolView { invalid: self.invalid.push(useless), ..self }
        }
    }

    /// The pool that the two stores describe, their entries taken in order.
    pub open spec fn load(cookies: Seq<CookieView>, wasted: Seq<UselessView>) -> PoolView {
        wasted.fold_left(
            cookies.fold_left(PoolView::empty(), restoring()),
            restoring_useless(),
        )
    }

    /// The pool after `event` was handled at time `now`.
    pub open spec fn run(self, event: EventView, now: i64) -> PoolView {
        match event {
            EventView::Return(cookie, reason) => self.collect(cookie, reason),
            EventView::Submit(cookie) => self.accept(cookie),
            EventView::CheckReset => self.reset(now),
            EventView::Request => self.dispatch(now),
            EventView::GetStatus => self,
            EventView::Delete(cookie) => if self.knows(cookie.cookie) {
                self.delete(cookie.cookie)
            } else {
                self
            },
        }
    }

    /// The answer to `event`, handled at time `now`.
    pub open spec fn reply(self, event: EventView, now: i64) -> ReplyView {
        match event {
            EventView::Return(_, _) => ReplyView::Done,
            EventView::Submit(_) => ReplyView::Done,
            EventView::CheckReset => ReplyView::Done,
            EventView::Request => ReplyView::Cookie(
                match self.dispatched(now) {
                    Some(cookie) => Ok(cookie),
                    None => Err(ErrorView::NoCookieAvailable),
                },
            ),
            EventView::GetStatus => ReplyView::Status(self),
            EventView::Delete(cookie) => ReplyView::Deleted(
                if self.knows(cookie.cookie) {
                    Ok(())
                } else {
                    Err(ErrorView::UnexpectedNone)
                },
            ),
        }
    }

    /// Whether handling `event` at time `now` changes what has to be stored.
    pub open spec fn stores(self, event: EventView, now: i64) -> bool {
        match event {
            EventView::Return(cookie, reason) => self.collects(cookie, reason),
            EventView::Submit(cookie) => !self.knows(cookie.cookie),
            EventView::CheckReset => self.sweeps(now),
            EventView::Request => self.sweeps(now),
            EventView::GetStatus => false,
            EventView::Delete(cookie) => self.knows(cookie.cookie),
        }
    }

    /// The pool after the events of `events` were handled in order, each at
    /// the time paired with it.
    pub open spec fn run_all(self, events: Seq<(EventView, i64)>) -> PoolView {
        events.fold_left(self, running())
    }

    /// Whether the token is given up and nowhere else in the pool.
    pub open spec fn barred(self, token: Seq<char>) -> bool {
        self.has_invalid(token) && !self.has_valid(token) && !self.has_exhausted(token)
    }
}

} // verus!
