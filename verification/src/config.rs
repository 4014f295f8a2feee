//! The credential as the pool stores it, and the reasons for which one
//! leaves rotation.
use vstd::prelude::*;
use vstd::std_specs::cmp::PartialEqSpecImpl;

verus! {

/// What the upstream service said about a credential when it came back
/// from a lease.
#[derive(Clone, Copy, Debug, PartialEq, Eq, Structural)]
pub enum Reason {
    /// The credential works; it stays in rotation.
    NormalPro,
    /// The account has no paid plan.
    NonPro,
    /// The account is disabled.
    Disabled,
    /// The account is banned.
    Banned,
    /// No reason at all: stands in where only the token matters.
    Null,
    /// Access is restricted until the given time (seconds since the epoch).
    Restricted(i64),
    /// The rate limit is used up until the given time (seconds since the epoch).
    TooManyRequest(i64),
}

impl Reason {
    /// The time at which a credential returned for this reason may serve
    /// again, for the two reasons that name one.
    pub open spec fn reset_at(self) -> Option<i64> {
        match self {
            Reason::Restricted(t) => Some(t),
            Reason::TooManyRequest(t) => Some(t),
            _ => None,
        }
    }

    /// Whether a credential returned for this reason is lost for good.
    pub open spec fn is_terminal(self) -> bool {
        self != Reason::NormalPro && self.reset_at() is None
    }

    /// The reset time that the reason carries, if it carries one.
    pub fn reset_time(&self) -> (res: Option<i64>)
        ensures
            res == self.reset_at(),
    {
        match self {
            Reason::Restricted(t) => Some(*t),
            Reason::TooManyRequest(t) => Some(*t),
            _ => None,
        }
    }
}

/// One account credential with the time, if any, until which it must rest.
#[derive(Debug)]
pub struct CookieStatus {
    /// The authentication token. Two credentials are the same credential
    /// when their tokens are equal.
    pub cookie: String,
    /// Seconds since the epoch at which the credential may serve again.
    pub reset_time: Option<i64>,
}

/// [`CookieStatus`] with its token as a sequence of characters.
pub struct CookieView {
    pub cookie: Seq<char>,
    pub reset_time: Option<i64>,
}

impl View for CookieStatus {
    type V = CookieView;

    open spec fn view(&self) -> CookieView {
        CookieView { cookie: self.cookie@, reset_time: self.reset_time }
    }
}

impl CookieView {
    /// Whether the rest of this credential is over at time `now`: its reset
    /// time has been reached, or it has none.
    pub open spec fn due(self, now: i64) -> bool {
        match self.reset_time {
            Some(t) => t <= now,
            None => true,
        }
    }

    /// The credential as the sweep leaves it at time `now`: without its
    /// reset time once that has been reached, unchanged before.
    pub open spec fn reset(self, now: i64) -> CookieView {
        if self.due(now) {
            CookieView { cookie: self.cookie, reset_time: None }
        } else {
            self
        }
    }
}

impl Clone for CookieStatus {
    fn clone(&self) -> (res: Self)
        ensures
            res == *self,
    {
        CookieStatus { cookie: self.cookie.clone(), reset_time: self.reset_time }
    }
}

impl PartialEq for CookieStatus {
    fn eq(&self, other: &Self) -> (res: bool) {
        self.cookie == other.cookie
    }
}

impl PartialEqSpecImpl for CookieStatus {
    open spec fn obeys_eq_spec() -> bool {
        true
    }

    open spec fn eq_spec(&self, other: &Self) -> bool {
        self.cookie@ == other.cookie@
    }
}

impl CookieStatus {
    /// A credential for `cookie` that rests until `reset_time`.
    pub fn new(cookie: &str, reset_time: Option<i64>) -> (res: Self)
        ensures
            res@ == (CookieView { cookie: cookie@, reset_time }),
    {
        CookieStatus { cookie: cookie.to_owned(), reset_time }
    }

    /// Clears the reset time if it has been reached at time `now`.
    pub fn reset(self, now: i64) -> (res: Self)
        ensures
            res@ == self@.reset(now),
    {
        match self.reset_time {
            Some(t) if t > now => self,
            _ => CookieStatus { cookie: self.cookie, reset_time: None },
        }
    }
}

/// A credential that is lost for good, with the reason for it.
#[derive(Debug)]
pub struct UselessCookie {
    /// The authentication token; it alone identifies the entry.
    pub cookie: String,
    /// Why the credential was given up.
    pub reason: Reason,
}

/// [`UselessCookie`] with its token as a sequence of characters.
pub struct UselessView {
    pub cookie: Seq<char>,
    pub reason: Reason,
}

impl View for UselessCookie {
    type V = UselessView;

    open spec fn view(&self) -> UselessView {
        UselessView { cookie: self.cookie@, reason: self.reason }
    }
}

impl Clone for UselessCookie {
    fn clone(&self) -> (res: Self)
        ensures
            res == *self,
    {
        UselessCookie { cookie: self.cookie.clone(), reason: self.reason }
    }
}

impl PartialEq for UselessCookie {
    fn eq(&self, other: &Self) -> (res: bool) {
        self.cookie == other.cookie
    }
}

impl PartialEqSpecImpl for UselessCookie {
    open spec fn obeys_eq_spec() -> bool {
        true
    }

    open spec fn eq_spec(&self, other: &Self) -> bool {
        self.cookie@ == other.cookie@
    }
}

impl UselessCookie {
    /// The entry for `cookie`, given up for `reason`.
    pub fn new(cookie: String, reason: Reason) -> (res: Self)
        ensures
            res.cookie == cookie,
            res.reason == reason,
    {
        UselessCookie { cookie, reason }
    }
}

} // verus!
