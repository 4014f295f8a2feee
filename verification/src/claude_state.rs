//! One exchange with the upstream service, from the lease of a credential
//! to the answer for the caller.
//!
//! [`ClaudeState`] is the state of one exchange. It does not talk to anyone:
//! [`ClaudeState::try_chat`] takes what has just happened (a [`ChatEvent`])
//! and says what to do next (a [`ChatAction`]). Whoever drives the exchange
//! performs the action and comes back with the event that tells how it
//! went; it starts with [`ChatEvent::Start`] and is over with the first of
//! [`ChatAction::Respond`], [`ChatAction::Store`] and [`ChatAction::Fail`].
//! A driver that has to give up sends [`ChatEvent::Cancel`], and performs
//! the return of the credential that may come back.
use vstd::prelude::*;

use crate::config::{CookieStatus, CookieView, Reason};
use crate::error::{ClewdrError, ErrorView};

pub mod chat;
pub mod chat_laws;
pub mod model;

verus! {

/// Where an exchange stands.
#[derive(Clone, Copy, Debug, PartialEq, Eq, Structural)]
pub enum Phase {
    /// Not begun.
    Idle,
    /// A credential has been asked for.
    Leasing,
    /// The account behind the credential is being looked up.
    Bootstrapping,
    /// A conversation is being opened.
    Creating,
    /// The request is being put into the upstream shape.
    Transforming,
    /// The attachments of the request are being uploaded.
    Uploading,
    /// The completion has been asked for.
    Completing,
    /// The conversation is being deleted.
    Cleaning,
    /// The credential is on its way back to the pool.
    Releasing,
    /// Over: the caller has its answer.
    Done,
}

/// What the exchange needs to know of the request.
#[derive(Debug)]
pub struct ChatParams {
    /// Whether the request asks for extended thinking.
    pub thinking: bool,
    /// The model that the request names.
    pub model: String,
}

/// [`ChatParams`] with its text as a sequence of characters.
pub struct ParamsView {
    pub thinking: bool,
    pub model: Seq<char>,
}

impl View for ChatParams {
    type V = ParamsView;

    open spec fn view(&self) -> ParamsView {
        ParamsView { thinking: self.thinking, model: self.model@ }
    }
}

/// What the upstream service says of the account behind a credential.
#[derive(Debug)]
pub struct Account {
    /// The organisation that the account belongs to, if it names one.
    pub org_uuid: Option<String>,
    /// Whether the account has a paid plan.
    pub pro: bool,
}

/// [`Account`] with its text as a sequence of characters.
pub struct AccountView {
    pub org_uuid: Option<Seq<char>>,
    pub pro: bool,
}

/// The characters of a text that may be absent.
pub open spec fn text(s: Option<String>) -> Option<Seq<char>> {
    match s {
        Some(s) => Some(s@),
        None => None,
    }
}

impl View for Account {
    type V = AccountView;

    open spec fn view(&self) -> AccountView {
        AccountView { org_uuid: text(self.org_uuid), pro: self.pro }
    }
}

/// What is sent to open a conversation.
#[derive(Debug)]
pub struct ConversationBody {
    /// The identifier chosen for the conversation.
    pub uuid: String,
    /// The name of the conversation.
    pub name: String,
    /// `extended` where the conversation is to think at length.
    pub paprika_mode: Option<String>,
    /// The model, named only together with `paprika_mode`.
    pub model: Option<String>,
}

/// [`ConversationBody`] with its texts as sequences of characters.
pub struct BodyView {
    pub uuid: Seq<char>,
    pub name: Seq<char>,
    pub paprika_mode: Option<Seq<char>>,
    pub model: Option<Seq<char>>,
}

impl View for ConversationBody {
    type V = BodyView;

    open spec fn view(&self) -> BodyView {
        BodyView {
            uuid: self.uuid@,
            name: self.name@,
            paprika_mode: text(self.paprika_mode),
            model: text(self.model),
        }
    }
}

/// What has just happened in an exchange.
#[derive(Debug)]
pub enum ChatEvent {
    /// The caller asks for the exchange to begin.
    Start,
    /// The pool answered the request for a credential.
    Leased(Result<CookieStatus, ClewdrError>),
    /// The look-up of the account ended.
    Bootstrapped(Result<Account, ClewdrError>),
    /// The attempt to open a conversation ended.
    Created(Result<(), ClewdrError>),
    /// The request was put into the upstream shape; `false` if nothing is
    /// left of it to send.
    Transformed(bool),
    /// The attachments are uploaded.
    Uploaded,
    /// The request for the completion ended; on success the response is
    /// streaming.
    Completed(Result<(), ClewdrError>),
    /// The conversation is deleted, or could not be.
    Cleaned,
    /// The credential is on its way back to the pool.
    Returned,
    /// The caller has gone away.
    Cancel,
}

/// [`ChatEvent`] with its texts as sequences of characters.
pub enum ChatEventView {
    Start,
    Leased(Result<CookieView, ErrorView>),
    Bootstrapped(Result<AccountView, ErrorView>),
    Created(Result<(), ErrorView>),
    Transformed(bool),
    Uploaded,
    Completed(Result<(), ErrorView>),
    Cleaned,
    Returned,
    Cancel,
}

/// The view of a result that carries nothing on success.
pub open spec fn outcome_view(r: Result<(), ClewdrError>) -> Result<(), ErrorView> {
    match r {
        Ok(()) => Ok(()),
        Err(e) => Err(e@),
    }
}

impl View for ChatEvent {
    type V = ChatEventView;

    open spec fn view(&self) -> ChatEventView {
        match self {
            ChatEvent::Start => ChatEventView::Start,
            ChatEvent::Leased(Ok(cookie)) => ChatEventView::Leased(Ok(cookie@)),
            ChatEvent::Leased(Err(e)) => ChatEventView::Leased(Err(e@)),
            ChatEvent::Bootstrapped(Ok(account)) => ChatEventView::Bootstrapped(Ok(account@)),
            ChatEvent::Bootstrapped(Err(e)) => ChatEventView::Bootstrapped(Err(e@)),
            ChatEvent::Created(r) => ChatEventView::Created(outcome_view(*r)),
            ChatEvent::Transformed(full) => ChatEventView::Transformed(*full),
            ChatEvent::Uploaded => ChatEventView::Uploaded,
            ChatEvent::Completed(r) => ChatEventView::Completed(outcome_view(*r)),
            ChatEvent::Cleaned => ChatEventView::Cleaned,
            ChatEvent::Returned => ChatEventView::Returned,
            ChatEvent::Cancel => ChatEventView::Cancel,
        }
    }
}

/// What is to be done next in an exchange.
#[derive(Debug)]
pub enum ChatAction {
    /// Ask the pool for a credential.
    Lease,
    /// Look up the account behind the credential on lease.
    Bootstrap,
    /// Open a conversation: post `body` to `url`.
    CreateConversation { url: String, body: ConversationBody },
    /// Put the request into the upstream shape.
    Transform,
    /// Upload the attachments of the request.
    Upload,
    /// Ask for the completion: post the transformed request to `url`.
    Complete { url: String },
    /// Delete the conversation at `url`. A failure is noted and no more.
    Clean { url: String },
    /// Hand `cookie` back to the pool with `reason`.
    Return { cookie: CookieStatus, reason: Option<Reason> },
    /// Answer the caller with the response.
    Respond,
    /// Put the response into the cache, in the slot `id` under `key`.
    Store { key: u64, id: usize },
    /// Answer the caller with the failure.
    Fail(ClewdrError),
    /// Nothing: the event does not belong to where the exchange stands.
    Ignore,
}

/// [`ChatAction`] with its texts as sequences of characters.
pub enum ActionView {
    Lease,
    Bootstrap,
    CreateConversation { url: Seq<char>, body: BodyView },
    Transform,
    Upload,
    Complete { url: Seq<char> },
    Clean { url: Seq<char> },
    Return { cookie: CookieView, reason: Option<Reason> },
    Respond,
    Store { key: u64, id: usize },
    Fail(ErrorView),
    Ignore,
}

impl View for ChatAction {
    type V = ActionView;

    open spec fn view(&self) -> ActionView {
        match self {
            ChatAction::Lease => ActionView::Lease,
            ChatAction::Bootstrap => ActionView::Bootstrap,
            ChatAction::CreateConversation { url, body } => ActionView::CreateConversation {
                url: url@,
                body: body@,
            },
            ChatAction::Transform => ActionView::Transform,
            ChatAction::Upload => ActionView::Upload,
            ChatAction::Complete { url } => ActionView::Complete { url: url@ },
            ChatAction::Clean { url } => ActionView::Clean { url: url@ },
            ChatAction::Return { cookie, reason } => ActionView::Return {
                cookie: cookie@,
                reason: *reason,
            },
            ChatAction::Respond => ActionView::Respond,
            ChatAction::Store { key, id } => ActionView::Store { key: *key, id: *id },
            ChatAction::Fail(e) => ActionView::Fail(e@),
            ChatAction::Ignore => ActionView::Ignore,
        }
    }
}

/// What one step of the upstream sequence yields.
#[derive(Debug)]
pub enum Sent {
    /// The sequence goes on with this action.
    Next(ChatAction),
    /// The sequence is over, with this outcome.
    Outcome(Result<(), ClewdrError>),
}

/// [`Sent`] with its texts as sequences of characters.
pub enum SentView {
    Next(ActionView),
    Outcome(Result<(), ErrorView>),
}

impl View for Sent {
    type V = SentView;

    open spec fn view(&self) -> SentView {
        match self {
            Sent::Next(action) => SentView::Next(action@),
            Sent::Outcome(r) => SentView::Outcome(outcome_view(*r)),
        }
    }
}

/// The state of one exchange.
#[derive(Debug)]
pub struct ClaudeState {
    /// The credential on lease, while an attempt holds one.
    pub cookie: Option<CookieStatus>,
    /// The organisation of the account behind the credential.
    pub org_uuid: Option<String>,
    /// The conversation that the attempt has opened.
    pub conv_uuid: Option<String>,
    /// The identifier chosen for the conversation that is being opened.
    pub proposed: Option<String>,
    /// The address of the upstream service.
    pub endpoint: String,
    /// The cache slot that the response is for, where the exchange runs to
    /// fill the cache and not to answer a caller.
    pub key: Option<(u64, usize)>,
    /// Whether the account behind the credential has a paid plan.
    pub pro: bool,
    /// Where the exchange stands.
    pub phase: Phase,
    /// How many more attempts may follow the current one.
    pub retries: usize,
    /// How the current attempt ended, once it has.
    pub outcome: Option<Result<(), ClewdrError>>,
}

/// [`ClaudeState`] with its texts as sequences of characters.
pub struct ChatView {
    pub cookie: Option<CookieView>,
    pub org_uuid: Option<Seq<char>>,
    pub conv_uuid: Option<Seq<char>>,
    pub proposed: Option<Seq<char>>,
    pub endpoint: Seq<char>,
    pub key: Option<(u64, usize)>,
    pub pro: bool,
    pub phase: Phase,
    pub retries: usize,
    pub outcome: Option<Result<(), ErrorView>>,
}

impl View for ClaudeState {
    type V = ChatView;

    open spec fn view(&self) -> ChatView {
        ChatView {
            cookie: match self.cookie {
                Some(cookie) => Some(cookie@),
                None => None,
            },
            org_uuid: text(self.org_uuid),
            conv_uuid: text(self.conv_uuid),
            proposed: text(self.proposed),
            endpoint: self.endpoint@,
            key: self.key,
            pro: self.pro,
            phase: self.phase,
            retries: self.retries,
            outcome: match self.outcome {
                Some(r) => Some(outcome_view(r)),
                None => None,
            },
        }
    }
}

} // verus!
