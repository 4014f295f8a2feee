//! The steps of an exchange.
use vstd::prelude::*;
use vstd::string::StringExecFns;

use crate::claude_state::model::{
    completion_url, conversation_body, conversation_url, conversations_url, release_reason,
};
use crate::claude_state::{
    outcome_view, ChatAction, ChatEvent, ChatParams, ChatView, ClaudeState, ConversationBody,
    Phase, Sent,
};
use crate::config::Reason;
use crate::error::ClewdrError;
use crate::services::cache::{popped, served, ResponseCache};

verus! {

/// Whether `c` is a digit or a letter from `a` to `f`.
pub open spec fn is_lower_hex(c: char) -> bool {
    ('0' <= c && c <= '9') || ('a' <= c && c <= 'f')
}

/// The written form of a random identifier: 36 characters, hyphens in the
/// places 8, 13, 18 and 23, lower-case hexadecimal digits everywhere else,
/// and the digit 4 in place 14.
pub open spec fn is_uuid_text(s: Seq<char>) -> bool {
    &&& s.len() == 36
    &&& forall|i: int|
        0 <= i < 36 ==> if i == 8 || i == 13 || i == 18 || i == 23 {
            #[trigger] s[i] == '-'
        } else {
            is_lower_hex(s[i])
        }
    &&& s[14] == '4'
}

/// A new random identifier, written out.
///
/// Calls `uuid::Uuid::new_v4` and writes the result with `to_string`. The
/// contract claims the written form alone: `Uuid`'s `Display` gives the
/// hyphenated lower-case form, and `new_v4` sets the version digit. Which
/// identifier comes back is left open. `new_v4` panics if the operating
/// system hands out no random bytes.
#[verifier::external_body]
fn new_uuid() -> (id: String)
    ensures
        is_uuid_text(id@),
{
    uuid::Uuid::new_v4().to_string()
}

/// Where conversations are opened.
fn conversations_address(endpoint: &String, org: &String) -> (url: String)
    ensures
        url@ == conversations_url(endpoint@, org@),
{
    let mut url = endpoint.clone();
    url.append("/api/organizations/");
    url.append(org.as_str());
    url.append("/chat_conversations");
    url
}

/// Where one conversation lives.
fn conversation_address(endpoint: &String, org: &String, conv: &String) -> (url: String)
    ensures
        url@ == conversation_url(endpoint@, org@, conv@),
{
    let mut url = conversations_address(endpoint, org);
    url.append("/");
    url.append(conv.as_str());
    url
}

/// Where the completion of a conversation is asked for.
fn completion_address(endpoint: &String, org: &String, conv: &String) -> (url: String)
    ensures
        url@ == completion_url(endpoint@, org@, conv@),
{
    let mut url = conversation_address(endpoint, org, conv);
    url.append("/completion");
    url
}

impl ConversationBody {
    /// What opens the conversation `uuid` for the request `p`, on an account
    /// with a paid plan or without.
    pub fn new(p: &ChatParams, pro: bool, uuid: String) -> (body: Self)
        ensures
            body@ == conversation_body(p@, pro, uuid@),
    {
        let mut name = "ClewdR-".to_owned();
        name.append(uuid.as_str());
        if p.thinking && pro {
            ConversationBody {
                uuid,
                name,
                paprika_mode: Some("extended".to_owned()),
                model: Some(p.model.clone()),
            }
        } else {
            ConversationBody { uuid, name, paprika_mode: None, model: None }
        }
    }
}

/// A copy of a text that may be absent.
fn copy_text(s: &Option<String>) -> (res: Option<String>)
    ensures
        res == *s,
{
    match s {
        Some(s) => Some(s.clone()),
        None => None,
    }
}

impl Clone for ClaudeState {
    fn clone(&self) -> (res: Self)
        ensures
            res == *self,
    {
        let cookie = match &self.cookie {
            Some(cookie) => Some(cookie.clone()),
            None => None,
        };
        let outcome = match &self.outcome {
            Some(Ok(done)) => Some(Ok(*done)),
            Some(Err(e)) => Some(Err(e.clone())),
            None => None,
        };
        let endpoint = self.endpoint.clone();
        ClaudeState {
            cookie,
            org_uuid: copy_text(&self.org_uuid),
            conv_uuid: copy_text(&self.conv_uuid),
            proposed: copy_text(&self.proposed),
            endpoint,
            key: self.key,
            pro: self.pro,
            phase: self.phase,
            retries: self.retries,
            outcome,
        }
    }
}

impl ClaudeState {
    /// An exchange that has not begun: against the service at `endpoint`,
    /// with `max_retries` attempts allowed after the first.
    pub fn new(endpoint: String, max_retries: usize) -> (state: Self)
        ensures
            state@ == ChatView::fresh(endpoint@, None, max_retries),
    {
        ClaudeState {
            cookie: None,
            org_uuid: None,
            conv_uuid: None,
            proposed: None,
            endpoint,
            key: None,
            pro: false,
            phase: Phase::Idle,
            retries: max_retries,
            outcome: None,
        }
    }

    /// Forgets what the last attempt left behind.
    fn clear(&mut self)
        ensures
            final(self)@ == old(self)@.cleared(),
    {
        self.cookie = None;
        self.org_uuid = None;
        self.conv_uuid = None;
        self.proposed = None;
        self.pro = false;
        self.outcome = None;
    }

    /// What follows once the credential is back in the pool.
    fn settle(&mut self) -> (action: ChatAction)
        ensures
            (final(self)@, action@) == old(self)@.settle(),
    {
        let retry = match &self.outcome {
            Some(Err(ClewdrError::InvalidCookie(r))) => r.reset_time().is_some(),
            _ => false,
        };
        if retry && self.retries > 0 {
            self.clear();
            self.retries = self.retries - 1;
            self.phase = Phase::Leasing;
            return ChatAction::Lease;
        }
        self.phase = Phase::Done;
        match &self.outcome {
            Some(Ok(())) => match self.key {
                Some((key, id)) => ChatAction::Store { key, id },
                None => ChatAction::Respond,
            },
            Some(Err(e)) => if retry {
                ChatAction::Fail(ClewdrError::TooManyRetries)
            } else {
                ChatAction::Fail(e.clone())
            },
            None => ChatAction::Fail(ClewdrError::UnexpectedNone),
        }
    }

    /// The reason with which the credential goes back after this attempt.
    fn reason(&self) -> (reason: Reason)
        ensures
            reason == release_reason(self@.outcome),
    {
        match &self.outcome {
            Some(Err(ClewdrError::InvalidCookie(r))) => *r,
            _ => Reason::NormalPro,
        }
    }

    /// Gives the credential back, if the exchange holds one.
    fn release(&mut self) -> (action: ChatAction)
        ensures
            (final(self)@, action@) == old(self)@.release(),
    {
        let reason = self.reason();
        match self.cookie.take() {
            Some(cookie) => {
                self.phase = Phase::Releasing;
                ChatAction::Return { cookie, reason: Some(reason) }
            },
            None => self.settle(),
        }
    }

    /// Ends the attempt with `outcome`.
    fn conclude(&mut self, outcome: Result<(), ClewdrError>) -> (action: ChatAction)
        ensures
            (final(self)@, action@) == old(self)@.conclude(outcome_view(outcome)),
    {
        self.outcome = Some(outcome);
        let url = match (&self.org_uuid, &self.conv_uuid) {
            (Some(org), Some(conv)) => Some(conversation_address(&self.endpoint, org, conv)),
            _ => None,
        };
        match url {
            Some(url) => {
                self.phase = Phase::Cleaning;
                ChatAction::Clean { url }
            },
            None => self.release(),
        }
    }

    /// Abandons the exchange.
    fn cancel(&mut self) -> (action: ChatAction)
        ensures
            (final(self)@, action@) == old(self)@.cancel(),
    {
        let reason = self.reason();
        self.phase = Phase::Done;
        match self.cookie.take() {
            Some(cookie) => ChatAction::Return { cookie, reason: Some(reason) },
            None => ChatAction::Ignore,
        }
    }

    /// One step of the upstream sequence: open a conversation under the
    /// identifier `fresh`, put the request into shape, upload what is
    /// attached, ask for the completion.
    ///
    /// The step either names the next action or says how the sequence
    /// ended. It ends with the first failure that an event reports; with
    /// [`ClewdrError::BadRequest`] where nothing is left of the request to
    /// send; with [`ClewdrError::UnexpectedNone`] where the organisation or
    /// the conversation is not known when it has to be; and with the outcome
    /// of the completion otherwise. An event that does not belong to where
    /// the sequence stands changes nothing.
    pub fn send_chat(&mut self, p: &ChatParams, event: ChatEvent, fresh: String) -> (sent: Sent)
        ensures
            (final(self)@, sent@) == old(self)@.send_chat(p@, event@, fresh@),
    {
        match (self.phase, event) {
            (Phase::Bootstrapping, ChatEvent::Bootstrapped(Ok(account))) => {
                self.pro = account.pro;
                self.org_uuid = account.org_uuid;
                match &self.org_uuid {
                    Some(org) => {
                        let url = conversations_address(&self.endpoint, org);
                        let body = ConversationBody::new(p, self.pro, fresh.clone());
                        self.proposed = Some(fresh);
                        self.phase = Phase::Creating;
                        Sent::Next(ChatAction::CreateConversation { url, body })
                    },
                    None => Sent::Outcome(Err(ClewdrError::UnexpectedNone)),
                }
            },
            (Phase::Creating, ChatEvent::Created(Ok(()))) => {
                match self.proposed.take() {
                    Some(conv) => {
                        self.conv_uuid = Some(conv);
                        self.phase = Phase::Transforming;
                        Sent::Next(ChatAction::Transform)
                    },
                    None => Sent::Outcome(Err(ClewdrError::UnexpectedNone)),
                }
            },
            (Phase::Creating, ChatEvent::Created(Err(e))) => Sent::Outcome(Err(e)),
            (Phase::Transforming, ChatEvent::Transformed(full)) => {
                if full {
                    self.phase = Phase::Uploading;
                    Sent::Next(ChatAction::Upload)
                } else {
                    Sent::Outcome(Err(ClewdrError::BadRequest("Empty request".to_owned())))
                }
            },
            (Phase::Uploading, ChatEvent::Uploaded) => {
                let url = match (&self.org_uuid, &self.conv_uuid) {
                    (Some(org), Some(conv)) => Some(completion_address(&self.endpoint, org, conv)),
                    _ => None,
                };
                match url {
                    Some(url) => {
                        self.phase = Phase::Completing;
                        Sent::Next(ChatAction::Complete { url })
                    },
                    None => Sent::Outcome(Err(ClewdrError::UnexpectedNone)),
                }
            },
            (Phase::Completing, ChatEvent::Completed(outcome)) => Sent::Outcome(outcome),
            _ => Sent::Next(ChatAction::Ignore),
        }
    }

    /// One step of the exchange, with `fresh` as the identifier for a
    /// conversation that the step may open: takes what has just happened
    /// and says what is to be done next.
    ///
    /// See [`ChatView::try_chat`] for the steps.
    pub fn try_chat_with(&mut self, p: &ChatParams, event: ChatEvent, fresh: String) -> (action:
        ChatAction)
        ensures
            (final(self)@, action@) == old(self)@.try_chat(p@, event@, fresh@),
    {
        match (self.phase, event) {
            (Phase::Leasing, ChatEvent::Leased(Ok(cookie))) => {
                self.cookie = Some(cookie);
                self.phase = Phase::Bootstrapping;
                ChatAction::Bootstrap
            },
            (_, ChatEvent::Leased(Ok(cookie))) => ChatAction::Return {
                cookie,
                reason: Some(Reason::NormalPro),
            },
            (Phase::Done, _) => ChatAction::Ignore,
            (_, ChatEvent::Cancel) => self.cancel(),
            (Phase::Idle, ChatEvent::Start) => {
                self.clear();
                self.phase = Phase::Leasing;
                ChatAction::Lease
            },
            (Phase::Leasing, ChatEvent::Leased(Err(e))) => {
                self.phase = Phase::Done;
                ChatAction::Fail(e)
            },
            (Phase::Bootstrapping, ChatEvent::Bootstrapped(Err(e))) => self.conclude(Err(e)),
            (Phase::Cleaning, ChatEvent::Cleaned) => self.release(),
            (Phase::Releasing, ChatEvent::Returned) => self.settle(),
            (_, event) => {
                match self.send_chat(p, event, fresh) {
                    Sent::Next(action) => action,
                    Sent::Outcome(outcome) => self.conclude(outcome),
                }
            },
        }
    }

    /// One step of the exchange: takes what has just happened and says what
    /// is to be done next.
    ///
    /// The exchange leases a credential, looks up its account, opens a
    /// conversation, sends the request, deletes the conversation, and gives
    /// the credential back, with the reason for which the upstream service
    /// turned it down if it did. After a failure that rests the credential
    /// for a time it starts over with another one, as long as attempts are
    /// left. Where the step opens a conversation, it does so under a new
    /// random identifier.
    pub fn try_chat(&mut self, p: &ChatParams, event: ChatEvent) -> (action: ChatAction)
        ensures
            old(self)@.opens(event@) ==> exists|fresh: Seq<char>|
                is_uuid_text(fresh) && (final(self)@, action@) == #[trigger] old(self)@.try_chat(
                    p@,
                    event@,
                    fresh,
                ),
            !old(self)@.opens(event@) ==> (final(self)@, action@) == old(self)@.try_chat(
                p@,
                event@,
                Seq::empty(),
            ),
    {
        let opens = self.phase == Phase::Bootstrapping && match &event {
            ChatEvent::Bootstrapped(Ok(account)) => account.org_uuid.is_some(),
            _ => false,
        };
        let fresh = if opens {
            new_uuid()
        } else {
            String::new()
        };
        self.try_chat_with(p, event, fresh)
    }

    /// Looks for a prepared response to the request with the fingerprint
    /// `key`.
    ///
    /// A response that the cache holds is taken out and handed over. Without
    /// one, the exchanges that are to prepare responses for later requests
    /// are handed over instead: `cache_response` copies of this exchange,
    /// the copy numbered `id` set to fill the slot `id` under `key`. The
    /// caller starts them and goes on to answer its own request by an
    /// exchange of its own.
    pub fn try_from_cache<S>(
        &self,
        cache: &mut ResponseCache<S>,
        key: u64,
        cache_response: usize,
    ) -> (found: Cached<S>)
        ensures
            final(cache)@ == popped(old(cache)@, key),
            match found {
                Cached::Hit(stream) => served(old(cache)@, key) == Some(stream),
                Cached::Miss(runs) => {
                    &&& served(old(cache)@, key) is None
                    &&& runs@.len() == cache_response
                    &&& forall|id: int|
                        0 <= id < cache_response ==> (#[trigger] runs@[id])@ == (ChatView {
                            key: Some((key, id as usize)),
                            ..self@
                        })
                },
            },
    {
        match cache.pop(key) {
            Some(stream) => Cached::Hit(stream),
            None => {
                let mut runs: Vec<ClaudeState> = Vec::new();
                let mut id: usize = 0;
                while id < cache_response
                    invariant
                        id <= cache_response,
                        runs@.len() == id,
                        forall|k: int|
                            0 <= k < id ==> (#[trigger] runs@[k])@ == (ChatView {
                                key: Some((key, k as usize)),
                                ..self@
                            }),
                    decreases cache_response - id,
                {
                    let mut state = self.clone();
                    state.key = Some((key, id));
                    runs.push(state);
                    id += 1;
                }
                Cached::Miss(runs)
            },
        }
    }
}

/// What a look into the cache brings.
pub enum Cached<S> {
    /// A prepared response.
    Hit(S),
    /// No response, and the exchanges that are to prepare some.
    Miss(Vec<ClaudeState>),
}

} // verus!
