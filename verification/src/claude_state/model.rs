//! The exchange as a mathematical value, and its transitions.
use vstd::prelude::*;

use crate::claude_state::{
    ActionView, BodyView, ChatEventView, ChatView, ParamsView, Phase, SentView,
};
use crate::config::Reason;
use crate::error::ErrorView;

verus! {

/// The reason with which a credential goes back to the pool after an
/// attempt with the given outcome: the reason for which the upstream
/// service turned it down, and [`Reason::NormalPro`] in every other case.
pub open spec fn release_reason(outcome: Option<Result<(), ErrorView>>) -> Reason {
    match outcome {
        Some(Err(ErrorView::InvalidCookie(r))) => r,
        _ => Reason::NormalPro,
    }
}

/// Whether another attempt may follow one with the given outcome: the
/// credential was turned down for a reason that names a reset time.
pub open spec fn retryable(outcome: Option<Result<(), ErrorView>>) -> bool {
    outcome matches Some(Err(ErrorView::InvalidCookie(r))) && r.reset_at() is Some
}

/// Where conversations are opened.
pub open spec fn conversations_url(endpoint: Seq<char>, org: Seq<char>) -> Seq<char> {
    endpoint + "/api/organizations/"@ + org + "/chat_conversations"@
}

/// Where one conversation lives.
pub open spec fn conversation_url(endpoint: Seq<char>, org: Seq<char>, conv: Seq<char>) -> Seq<
    char,
> {
    conversations_url(endpoint, org) + "/"@ + conv
}

/// Where the completion of a conversation is asked for.
pub open spec fn completion_url(endpoint: Seq<char>, org: Seq<char>, conv: Seq<char>) -> Seq<
    char,
> {
    conversation_url(endpoint, org, conv) + "/completion"@
}

/// What opens the conversation `uuid`. It thinks at length, with the model
/// of the request, where the request asks for it and the account has a paid
/// plan.
pub open spec fn conversation_body(p: ParamsView, pro: bool, uuid: Seq<char>) -> BodyView {
    BodyView {
        uuid,
        name: "ClewdR-"@ + uuid,
        paprika_mode: if p.thinking && pro {
            Some("extended"@)
        } else {
            None
        },
        model: if p.thinking && pro {
            Some(p.model)
        } else {
            None
        },
    }
}

impl ChatView {
    /// The exchange before it begins: against `endpoint`, for the cache slot
    /// `key` if any, with `max_retries` attempts allowed after the first.
    pub open spec fn fresh(
        endpoint: Seq<char>,
        key: Option<(u64, usize)>,
        max_retries: usize,
    ) -> ChatView {
        ChatView {
            cookie: None,
            org_uuid: None,
            conv_uuid: None,
            proposed: None,
            endpoint,
            key,
            pro: false,
            phase: Phase::Idle,
            retries: max_retries,
            outcome: None,
        }
    }

    /// The exchange with nothing left of the last attempt.
    pub open spec fn cleared(self) -> ChatView {
        ChatView {
            cookie: None,
            org_uuid: None,
            conv_uuid: None,
            proposed: None,
            pro: false,
            outcome: None,
            ..self
        }
    }

    /// What follows once the credential is back in the pool. After a
    /// success the response goes to the caller, or into the cache slot that
    /// the exchange runs for. After a [retryable] failure another attempt
    /// begins if one is left, and the exchange fails with
    /// [`ErrorView::TooManyRetries`] if none is. Any other failure goes to
    /// the caller as it is.
    pub open spec fn settle(self) -> (ChatView, ActionView) {
        let done = ChatView { phase: Phase::Done, ..self };
        match self.outcome {
            Some(Ok(())) => match self.key {
                Some((key, id)) => (done, ActionView::Store { key, id }),
                None => (done, ActionView::Respond),
            },
            Some(Err(e)) => if retryable(self.outcome) {
                if self.retries > 0 {
                    (
                        ChatView {
                            phase: Phase::Leasing,
                            retries: (self.retries - 1) as usize,
                            ..self.cleared()
                        },
                        ActionView::Lease,
                    )
                } else {
                    (done, ActionView::Fail(ErrorView::TooManyRetries))
                }
            } else {
                (done, ActionView::Fail(e))
            },
            None => (done, ActionView::Fail(ErrorView::UnexpectedNone)),
        }
    }

    /// Gives the credential back, with the [reason](release_reason) that the
    /// outcome of the attempt calls for. An exchange that holds none goes
    /// straight on to what [follows](Self::settle).
    pub open spec fn release(self) -> (ChatView, ActionView) {
        match self.cookie {
            Some(cookie) => (
                ChatView { cookie: None, phase: Phase::Releasing, ..self },
                ActionView::Return { cookie, reason: Some(release_reason(self.outcome)) },
            ),
            None => self.settle(),
        }
    }

    /// Ends the attempt with `outcome`: the conversation, if one was opened,
    /// is deleted first; then the credential is [released](Self::release).
    pub open spec fn conclude(self, outcome: Result<(), ErrorView>) -> (ChatView, ActionView) {
        let ended = ChatView { outcome: Some(outcome), ..self };
        match (self.org_uuid, self.conv_uuid) {
            (Some(org), Some(conv)) => (
                ChatView { phase: Phase::Cleaning, ..ended },
                ActionView::Clean { url: conversation_url(self.endpoint, org, conv) },
            ),
            _ => ended.release(),
        }
    }

    /// Abandons the exchange: a credential on lease goes back to the pool at
    /// once, and nothing else is done.
    pub open spec fn cancel(self) -> (ChatView, ActionView) {
        match self.cookie {
            Some(cookie) => (
                ChatView { cookie: None, phase: Phase::Done, ..self },
                ActionView::Return { cookie, reason: Some(release_reason(self.outcome)) },
            ),
            None => (ChatView { phase: Phase::Done, ..self }, ActionView::Ignore),
        }
    }

    /// Whether `event` makes the exchange open a conversation: the account
    /// has just been looked up and names its organisation.
    pub open spec fn opens(self, event: ChatEventView) -> bool {
        self.phase == Phase::Bootstrapping && (event matches ChatEventView::Bootstrapped(Ok(account))
            && account.org_uuid is Some)
    }

    /// One step of the upstream sequence: open a conversation under the
    /// identifier `fresh`, put the request into shape, upload what is
    /// attached, ask for the completion.
    ///
    /// The sequence ends with the first failure, with
    /// [`ErrorView::BadRequest`] where nothing is left of the request to
    /// send, with [`ErrorView::UnexpectedNone`] where the organisation or
    /// the conversation is not known when it has to be, and with the
    /// outcome of the completion otherwise.
    pub open spec fn send_chat(self, p: ParamsView, event: ChatEventView, fresh: Seq<char>) -> (
        ChatView,
        SentView,
    ) {
        match (self.phase, event) {
            (Phase::Bootstrapping, ChatEventView::Bootstrapped(Ok(account))) => {
                let known = ChatView { org_uuid: account.org_uuid, pro: account.pro, ..self };
                match account.org_uuid {
                    Some(org) => (
                        ChatView { proposed: Some(fresh), phase: Phase::Creating, ..known },
                        SentView::Next(
                            ActionView::CreateConversation {
                                url: conversations_url(self.endpoint, org),
                                body: conversation_body(p, account.pro, fresh),
                            },
                        ),
                    ),
                    None => (known, SentView::Outcome(Err(ErrorView::UnexpectedNone))),
                }
            },
            (Phase::Creating, ChatEventView::Created(Ok(()))) => match self.proposed {
                Some(conv) => (
                    ChatView {
                        conv_uuid: Some(conv),
                        proposed: None,
                        phase: Phase::Transforming,
                        ..self
                    },
                    SentView::Next(ActionView::Transform),
                ),
                None => (self, SentView::Outcome(Err(ErrorView::UnexpectedNone))),
            },
            (Phase::Creating, ChatEventView::Created(Err(e))) => (
                self,
                SentView::Outcome(Err(e)),
            ),
            (Phase::Transforming, ChatEventView::Transformed(full)) => if full {
                (ChatView { phase: Phase::Uploading, ..self }, SentView::Next(ActionView::Upload))
            } else {
                (self, SentView::Outcome(Err(ErrorView::BadRequest("Empty request"@))))
            },
            (Phase::Uploading, ChatEventView::Uploaded) => match (self.org_uuid, self.conv_uuid) {
                (Some(org), Some(conv)) => (
                    ChatView { phase: Phase::Completing, ..self },
                    SentView::Next(
                        ActionView::Complete { url: completion_url(self.endpoint, org, conv) },
                    ),
                ),
                _ => (self, SentView::Outcome(Err(ErrorView::UnexpectedNone))),
            },
            (Phase::Completing, ChatEventView::Completed(outcome)) => (
                self,
                SentView::Outcome(outcome),
            ),
            _ => (self, SentView::Next(ActionView::Ignore)),
        }
    }

    /// One step of the exchange: the state after `event`, and what is to be
    /// done next. `fresh` is the identifier for a conversation that the step
    /// may open.
    ///
    /// An attempt leases a credential, looks up its account, runs the
    /// [upstream sequence](Self::send_chat), deletes the conversation it
    /// opened, and gives the credential back; what its outcome leads to is
    /// said [there](Self::settle). Without a credential the exchange fails
    /// at once. A credential that arrives when none was asked for goes
    /// straight back to the pool. Any other event that does not belong to
    /// where the exchange stands changes nothing.
    pub open spec fn try_chat(self, p: ParamsView, event: ChatEventView, fresh: Seq<char>) -> (
        ChatView,
        ActionView,
    ) {
        match (self.phase, event) {
            (Phase::Leasing, ChatEventView::Leased(Ok(cookie))) => (
                ChatView { cookie: Some(cookie), phase: Phase::Bootstrapping, ..self },
                ActionView::Bootstrap,
            ),
            (_, ChatEventView::Leased(Ok(cookie))) => (
                self,
                ActionView::Return { cookie, reason: Some(Reason::NormalPro) },
            ),
            (Phase::Done, _) => (self, ActionView::Ignore),
            (_, ChatEventView::Cancel) => self.cancel(),
            (Phase::Idle, ChatEventView::Start) => (
                ChatView { phase: Phase::Leasing, ..self.cleared() },
                ActionView::Lease,
            ),
            (Phase::Leasing, ChatEventView::Leased(Err(e))) => (
                ChatView { phase: Phase::Done, ..self },
                ActionView::Fail(e),
            ),
            (Phase::Bootstrapping, ChatEventView::Bootstrapped(Err(e))) => self.conclude(Err(e)),
            (Phase::Cleaning, ChatEventView::Cleaned) => self.release(),
            (Phase::Releasing, ChatEventView::Returned) => self.settle(),
            _ => {
                let (next, sent) = self.send_chat(p, event, fresh);
                match sent {
                    SentView::Next(action) => (next, action),
                    SentView::Outcome(outcome) => next.conclude(outcome),
                }
            },
        }
    }
}

} // verus!
