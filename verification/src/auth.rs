//! Signing in with GitHub's device flow: which attempt is current, how long
//! the device code is polled for, what each poll answer and each message of
//! the flow does, and what the window does with a stored token.
use vstd::prelude::*;
use crate::text::{string_of, concat2};
use crate::errors::user_message;

verus! {

/// Numbers sign-in attempts so that the answers of an abandoned attempt are
/// ignored.
pub struct AuthAttemptTracker {
    pub generation: u64,
}

/// `n + 1`, wrapping to 0 after the largest `u64`.
pub open spec fn next_generation(n: u64) -> u64 {
    if n == u64::MAX {
        0
    } else {
        (n + 1) as u64
    }
}

impl Default for AuthAttemptTracker {
    fn default() -> (r: Self)
        ensures
            r.generation == 0,
    {
        AuthAttemptTracker { generation: 0 }
    }
}

impl AuthAttemptTracker {
    /// Starts a new attempt and answers its id.
    pub fn begin_attempt(&mut self) -> (id: u64)
        ensures
            final(self).generation == next_generation(old(self).generation),
            id == final(self).generation,
    {
        self.generation = self.generation.wrapping_add(1);
        self.generation
    }

    /// Abandons the current attempt.
    pub fn cancel_active_attempt(&mut self)
        ensures
            final(self).generation == next_generation(old(self).generation),
    {
        self.generation = self.generation.wrapping_add(1);
    }

    /// Whether `attempt_id` is the current attempt.
    pub fn is_current(&self, attempt_id: u64) -> (r: bool)
        ensures
            r == (self.generation == attempt_id),
    {
        self.generation == attempt_id
    }
}

/// Beginning an attempt makes it the only current one: the attempt before
/// it is no longer current, and cancelling then leaves none current.
pub proof fn lemma_latest_attempt_is_current(g: u64)
    ensures
        next_generation(g) != g,
        next_generation(next_generation(g)) != next_generation(g),
{
}

/// How the device code is polled: every `interval` seconds (at least one),
/// at most as many times as fit in its lifetime (at least once).
pub open spec fn poll_schedule(expires_in: u64, interval: u64) -> (u64, u64) {
    let step = if interval > 0 { interval } else { 1 };
    let n = expires_in / step;
    (step, if n > 0 { n } else { 1 })
}

/// The polling interval, in seconds, and the largest number of polls.
pub fn device_poll_schedule(expires_in: u64, interval: u64) -> (r: (u64, u64))
    ensures
        r == poll_schedule(expires_in, interval),
{
    let step = if interval > 0 {
        interval
    } else {
        1
    };
    let n = expires_in / step;
    (step, if n > 0 {
        n
    } else {
        1
    })
}

/// What a poll of the device token answered.
pub enum PollAnswer {
    /// The token.
    Token(String),
    /// The user has not approved yet.
    Pending,
    /// GitHub asks to poll less often.
    SlowDown,
    /// The device code expired.
    Expired,
    /// The user refused.
    AccessDenied,
    /// The request failed, with what went wrong.
    RequestFailed(String),
    /// Anything else, with what GitHub said.
    Unknown(String),
}

/// What the poller does next.
pub enum PollAction {
    /// Wait one interval and poll again.
    PollAgain,
    /// Wait one more interval, then poll again.
    SlowDown,
    /// Signed in with this token.
    Succeeded(String),
    /// Give up, saying why.
    Failed(String),
}

/// The device-token poller of one attempt.
pub struct DevicePoller {
    pub max_attempts: u64,
    pub attempts: u64,
}

impl DevicePoller {
    /// A poller for a code that lives `expires_in` seconds, polled every
    /// `interval` seconds.
    pub fn new(expires_in: u64, interval: u64) -> (p: DevicePoller)
        ensures
            p.max_attempts == poll_schedule(expires_in, interval).1,
            p.attempts == 0,
    {
        let (_, max_attempts) = device_poll_schedule(expires_in, interval);
        DevicePoller { max_attempts, attempts: 0 }
    }

    /// Whether another poll may go out; if so it is counted. Answers the
    /// timeout message once the polls are used up.
    pub fn next_poll(&mut self) -> (r: Option<String>)
        ensures
            old(self).attempts >= old(self).max_attempts ==> (r matches Some(m) && m@
                == "Authentication timeout"@ && final(self).attempts == old(self).attempts),
            old(self).attempts < old(self).max_attempts ==> r is None && final(self).attempts
                == old(self).attempts + 1,
            final(self).max_attempts == old(self).max_attempts,
    {
        if self.attempts >= self.max_attempts {
            return Some(string_of("Authentication timeout"));
        }
        self.attempts = self.attempts + 1;
        None
    }
}

/// What the poller does with an answer: keep polling while the user has
/// not approved, wait longer when asked to, and stop on anything else, with
/// the token or with what went wrong.
pub fn poll_action(answer: PollAnswer) -> (r: PollAction)
    ensures
        match answer {
            PollAnswer::Token(t) => r matches PollAction::Succeeded(x) && x@ == t@,
            PollAnswer::Pending => r is PollAgain,
            PollAnswer::SlowDown => r is SlowDown,
            PollAnswer::Expired => r matches PollAction::Failed(m) && m@ == "Authentication timeout"@,
            PollAnswer::AccessDenied => r matches PollAction::Failed(m) && m@ == "Access denied"@,
            PollAnswer::RequestFailed(e) => r matches PollAction::Failed(m) && m@ == e@,
            PollAnswer::Unknown(e) => r matches PollAction::Failed(m) && m@ == e@,
        },
{
    match answer {
        PollAnswer::Token(t) => PollAction::Succeeded(t),
        PollAnswer::Pending => PollAction::PollAgain,
        PollAnswer::SlowDown => PollAction::SlowDown,
        PollAnswer::Expired => PollAction::Failed(string_of("Authentication timeout")),
        PollAnswer::AccessDenied => PollAction::Failed(string_of("Access denied")),
        PollAnswer::RequestFailed(e) => PollAction::Failed(e),
        PollAnswer::Unknown(e) => PollAction::Failed(e),
    }
}

/// A message of the sign-in flow, tagged with its attempt.
pub enum AuthMessage {
    /// The device code is ready: the code to show the user.
    FlowReady(u64, String),
    /// The flow could not start.
    FlowError(u64, String),
    /// The user approved.
    PollSuccess(u64),
    /// Polling failed.
    PollError(u64, String),
    /// Saving the token finished.
    SaveCompleted(u64, Result<(), String>),
}

/// The attempt a message belongs to.
pub open spec fn attempt_of(m: AuthMessage) -> u64 {
    match m {
        AuthMessage::FlowReady(a, _) => a,
        AuthMessage::FlowError(a, _) => a,
        AuthMessage::PollSuccess(a) => a,
        AuthMessage::PollError(a, _) => a,
        AuthMessage::SaveCompleted(a, _) => a,
    }
}

impl AuthMessage {
    /// The attempt the message belongs to.
    pub fn attempt_id(&self) -> (r: u64)
        ensures
            r == attempt_of(*self),
    {
        match self {
            AuthMessage::FlowReady(a, _) => *a,
            AuthMessage::FlowError(a, _) => *a,
            AuthMessage::PollSuccess(a) => *a,
            AuthMessage::PollError(a, _) => *a,
            AuthMessage::SaveCompleted(a, _) => *a,
        }
    }
}

/// What the sign-in dialog does with a message.
pub enum AuthUiAction {
    /// The message belongs to an abandoned attempt.
    Ignore,
    /// Show the code, start polling, and say what to do.
    ShowCode { code: String, status: String },
    /// Stop with this status line.
    Fail(String),
    /// Save the token, saying so.
    SaveToken(String),
    /// Signed in: say so, close the dialog and carry on.
    Finish(String),
}

/// The status line for an error message.
pub open spec fn error_status(m: Seq<char>) -> Seq<char> {
    user_message(m)
}

/// What the dialog does with `message` while `current` is the current
/// attempt.
pub fn auth_ui_action(current: u64, message: AuthMessage) -> (r: AuthUiAction)
    ensures
        attempt_of(message) != current ==> r is Ignore,
        attempt_of(message) == current ==> match message {
            AuthMessage::FlowReady(_, code) => r matches AuthUiAction::ShowCode { code: c, status: s }
                && c@ == code@ && s@ == "Waiting for authorization..."@,
            AuthMessage::FlowError(_, e) => r matches AuthUiAction::Fail(s) && s@ == error_status(e@),
            AuthMessage::PollSuccess(_) => r matches AuthUiAction::SaveToken(s) && s@ == "Saving token..."@,
            AuthMessage::PollError(_, e) => r matches AuthUiAction::Fail(s) && s@ == error_status(e@),
            AuthMessage::SaveCompleted(_, res) => match res {
                Ok(()) => r matches AuthUiAction::Finish(s) && s@ == "Signed in successfully"@,
                Err(e) => r matches AuthUiAction::Fail(s) && s@ == "Error saving token: "@ + e@,
            },
        },
{
    if message.attempt_id() != current {
        return AuthUiAction::Ignore;
    }
    match message {
        AuthMessage::FlowReady(_, code) => AuthUiAction::ShowCode {
            code,
            status: string_of("Waiting for authorization..."),
        },
        AuthMessage::FlowError(_, e) => AuthUiAction::Fail(crate::errors::user_message_from(e.as_str())),
        AuthMessage::PollSuccess(_) => AuthUiAction::SaveToken(string_of("Saving token...")),
        AuthMessage::PollError(_, e) => AuthUiAction::Fail(crate::errors::user_message_from(e.as_str())),
        AuthMessage::SaveCompleted(_, res) => match res {
            Ok(()) => AuthUiAction::Finish(string_of("Signed in successfully")),
            Err(e) => AuthUiAction::Fail(concat2("Error saving token: ", e.as_str())),
        },
    }
}

/// What the window does with the outcome of looking for a stored token.
pub enum TokenAction {
    /// Start a client with this token.
    StartClient(String),
    /// Show the signed-out screen.
    SignOut,
    /// Nothing to do.
    Nothing,
}

/// At start-up: a stored token starts a client; no token, or no access to
/// the store, signs out.
pub fn startup_token_action(result: Result<Option<String>, String>) -> (r: TokenAction)
    ensures
        match result {
            Ok(Some(t)) => r matches TokenAction::StartClient(x) && x@ == t@,
            _ => r is SignOut,
        },
{
    match result {
        Ok(Some(token)) => TokenAction::StartClient(token),
        _ => TokenAction::SignOut,
    }
}

/// When the window gains focus outside demo mode: a token appearing while
/// no client runs starts one; a token that vanished signs out (and the
/// client goes); otherwise nothing changes.
pub fn focus_token_action(demo_mode: bool, has_client: bool, result: Result<String, String>) -> (r:
    TokenAction)
    ensures
        demo_mode ==> r is Nothing,
        !demo_mode ==> match result {
            Ok(t) => if has_client {
                r is Nothing
            } else {
                (r matches TokenAction::StartClient(x) && x@ == t@)
            },
            Err(_) => r is SignOut,
        },
{
    if demo_mode {
        return TokenAction::Nothing;
    }
    match result {
        Ok(token) => if has_client {
            TokenAction::Nothing
        } else {
            TokenAction::StartClient(token)
        },
        Err(_) => TokenAction::SignOut,
    }
}

} // verus!
