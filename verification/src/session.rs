//! The decisions of the Codex app-server client. The client sends `initialize`,
//! then, once the server has answered, reads the rate limits and the token usage
//! whenever each is enabled, not already asked for, and due; it matches replies to
//! requests by id, and after each answer the next read of that kind falls due one
//! interval later. The one-shot status read asks for the rate limits once the server
//! has answered `initialize`, and ends with the matching reply. Sending, reading the
//! socket, storing results and reading caches are the caller's.

use vstd::prelude::*;

verus! {

/// What happened since the last step.
#[derive(Clone, Copy, Debug, PartialEq, Eq, Structural)]
pub enum CodexEvent {
    /// A turn of the client loop at `now_millis`, before reading the socket.
    Tick { now_millis: u64 },
    /// A reply arrived at `now_millis`: its id (none when it has none), and whether
    /// it carries an `error` and a `result`.
    Reply { id: Option<u64>, has_error: bool, has_result: bool, now_millis: u64 },
}

/// What the caller does next.
#[derive(Clone, Copy, Debug, PartialEq, Eq, Structural)]
pub enum CodexAction {
    /// Send `initialize` with this id.
    SendInitialize(u64),
    /// Send `account/rateLimits/read` with this id.
    SendRateLimitsRead(u64),
    /// Send `account/usage/read` with this id.
    SendUsageRead(u64),
    /// The server is ready: mark the enabled kinds ready.
    MarkReady { rate: bool, activity: bool },
    /// Store the rate-limit result of the reply.
    StoreRate,
    /// Store the usage result of the reply.
    StoreActivity,
    /// The rate-limit read failed: fall back to the cached rate limits.
    CachedRate,
    /// The usage read failed: fall back to the cached usage.
    CachedActivity,
    /// The reply ended the session with its error.
    Fail,
    /// The matching reply carried neither an error nor a result.
    MissingResult,
    /// Nothing to do.
    Nothing,
}

/// The client's state between steps. Times are milliseconds on the caller's clock.
#[derive(Clone, Copy, Debug, PartialEq, Eq, Structural)]
pub struct CodexSession {
    pub initialized: bool,
    pub initialize_id: u64,
    pub next_id: u64,
    pub pending_rate: Option<u64>,
    pub pending_activity: Option<u64>,
    pub next_rate_at: u64,
    pub next_activity_at: u64,
    pub rate_enabled: bool,
    pub activity_enabled: bool,
    pub interval_millis: u64,
}

/// A new session: `initialize` goes out with id 1 and both reads are due at once.
pub open spec fn session_start(rate_enabled: bool, activity_enabled: bool, interval_millis: u64, now: u64) -> (
    CodexSession,
    CodexAction,
) {
    (
        CodexSession {
            initialized: false,
            initialize_id: 1,
            next_id: 2,
            pending_rate: None,
            pending_activity: None,
            next_rate_at: now,
            next_activity_at: now,
            rate_enabled,
            activity_enabled,
            interval_millis,
        },
        CodexAction::SendInitialize(1),
    )
}

pub fn codex_start(rate_enabled: bool, activity_enabled: bool, interval_millis: u64, now_millis: u64) -> (r: (
    CodexSession,
    CodexAction,
))
    ensures
        r == session_start(rate_enabled, activity_enabled, interval_millis, now_millis),
{
    (
        CodexSession {
            initialized: false,
            initialize_id: 1,
            next_id: 2,
            pending_rate: None,
            pending_activity: None,
            next_rate_at: now_millis,
            next_activity_at: now_millis,
            rate_enabled,
            activity_enabled,
            interval_millis,
        },
        CodexAction::SendInitialize(1),
    )
}

/// A read of a kind is sent when the kind is enabled, the server is ready, no read
/// of that kind is pending, and it is due.
pub open spec fn rate_due(s: CodexSession, now: u64) -> bool {
    s.rate_enabled && s.initialized && s.pending_rate is None && now >= s.next_rate_at
}

pub open spec fn activity_due(s: CodexSession, now: u64) -> bool {
    s.activity_enabled && s.initialized && s.pending_activity is None && now >= s.next_activity_at
}

/// The reply's id as the client compares it with pending reads: none counts as 0,
/// which no request carries.
pub open spec fn reply_key(id: Option<u64>) -> u64 {
    match id {
        Some(i) => i,
        None => 0,
    }
}

/// One step of the client.
pub open spec fn codex_session_step(s: CodexSession, e: CodexEvent) -> (CodexSession, Seq<CodexAction>) {
    match e {
        CodexEvent::Tick { now_millis } => {
            let (s1, a1) = if rate_due(s, now_millis) {
                (
                    CodexSession { pending_rate: Some(s.next_id), next_id: (s.next_id + 1) as u64, ..s },
                    seq![CodexAction::SendRateLimitsRead(s.next_id)],
                )
            } else {
                (s, Seq::<CodexAction>::empty())
            };
            if activity_due(s1, now_millis) {
                (
                    CodexSession { pending_activity: Some(s1.next_id), next_id: (s1.next_id + 1) as u64, ..s1 },
                    a1.push(CodexAction::SendUsageRead(s1.next_id)),
                )
            } else {
                (s1, a1)
            }
        },
        CodexEvent::Reply { id, has_error, has_result, now_millis } => {
            if id == Some(s.initialize_id) {
                if has_error {
                    (s, seq![CodexAction::Fail])
                } else {
                    (
                        CodexSession {
                            initialized: true,
                            next_rate_at: now_millis,
                            next_activity_at: now_millis,
                            ..s
                        },
                        seq![CodexAction::MarkReady { rate: s.rate_enabled, activity: s.activity_enabled }],
                    )
                }
            } else if Some(reply_key(id)) == s.pending_rate {
                let next = CodexSession {
                    pending_rate: None,
                    next_rate_at: (now_millis + s.interval_millis) as u64,
                    ..s
                };
                if has_error {
                    (next, seq![CodexAction::CachedRate])
                } else if has_result {
                    (next, seq![CodexAction::StoreRate])
                } else {
                    (next, Seq::<CodexAction>::empty())
                }
            } else if Some(reply_key(id)) == s.pending_activity {
                let next = CodexSession {
                    pending_activity: None,
                    next_activity_at: (now_millis + s.interval_millis) as u64,
                    ..s
                };
                if has_error {
                    (next, seq![CodexAction::CachedActivity])
                } else if has_result {
                    (next, seq![CodexAction::StoreActivity])
                } else {
                    (next, Seq::<CodexAction>::empty())
                }
            } else {
                (s, Seq::<CodexAction>::empty())
            }
        },
    }
}

/// Every reply to a pending read ends that read: a result is stored, an error falls
/// back to the cache, and the next read of that kind falls due one interval after
/// the reply; the other read and the readiness are untouched.
pub proof fn law_replies_to_pending_reads_store_their_results(
    s: CodexSession,
    k: u64,
    has_error: bool,
    has_result: bool,
    now: u64,
)
    requires
        k != s.initialize_id,
        now + s.interval_millis <= u64::MAX,
    ensures
        ({
            let (n, acts) = codex_session_step(
                s,
                CodexEvent::Reply { id: Some(k), has_error, has_result, now_millis: now },
            );
            &&& s.pending_rate == Some(k) ==> {
                &&& acts == if has_error {
                    seq![CodexAction::CachedRate]
                } else if has_result {
                    seq![CodexAction::StoreRate]
                } else {
                    Seq::<CodexAction>::empty()
                }
                &&& n.pending_rate is None
                &&& n.next_rate_at == now + s.interval_millis
                &&& n.pending_activity == s.pending_activity
                &&& n.next_activity_at == s.next_activity_at
                &&& n.initialized == s.initialized
            }
            &&& s.pending_activity == Some(k) && s.pending_rate != Some(k) ==> {
                &&& acts == if has_error {
                    seq![CodexAction::CachedActivity]
                } else if has_result {
                    seq![CodexAction::StoreActivity]
                } else {
                    Seq::<CodexAction>::empty()
                }
                &&& n.pending_activity is None
                &&& n.next_activity_at == now + s.interval_millis
                &&& n.pending_rate == s.pending_rate
                &&& n.next_rate_at == s.next_rate_at
                &&& n.initialized == s.initialized
            }
            &&& s.pending_rate != Some(k) && s.pending_activity != Some(k) ==> n == s && acts.len() == 0
        }),
{
}

/// A reply without an id changes nothing unless it answers `initialize`.
pub proof fn law_replies_without_an_id_are_ignored(s: CodexSession, has_error: bool, has_result: bool, now: u64)
    requires
        s.pending_rate != Some(0u64),
        s.pending_activity != Some(0u64),
    ensures
        codex_session_step(s, CodexEvent::Reply { id: None, has_error, has_result, now_millis: now }) == (
            s,
            Seq::<CodexAction>::empty(),
        ),
{
}

/// The ids stay below the largest `u64` (the client would overflow there), and a
/// reply's next due time fits.
pub open spec fn step_fits(s: CodexSession, e: CodexEvent) -> bool {
    &&& s.next_id + 2 <= u64::MAX
    &&& e matches CodexEvent::Reply { now_millis, .. } ==> now_millis + s.interval_millis <= u64::MAX
}

pub fn codex_step(s: &CodexSession, e: CodexEvent) -> (r: (CodexSession, Vec<CodexAction>))
    requires
        step_fits(*s, e),
    ensures
        r.0 == codex_session_step(*s, e).0,
        r.1@ == codex_session_step(*s, e).1,
{
    match e {
        CodexEvent::Tick { now_millis } => {
            let mut next = *s;
            let mut actions: Vec<CodexAction> = Vec::new();
            if next.rate_enabled && next.initialized && next.pending_rate.is_none()
                && now_millis >= next.next_rate_at {
                actions.push(CodexAction::SendRateLimitsRead(next.next_id));
                next.pending_rate = Some(next.next_id);
                next.next_id = next.next_id + 1;
            }
            if next.activity_enabled && next.initialized && next.pending_activity.is_none()
                && now_millis >= next.next_activity_at {
                actions.push(CodexAction::SendUsageRead(next.next_id));
                next.pending_activity = Some(next.next_id);
                next.next_id = next.next_id + 1;
            }
            proof {
                let (s1, a1) = if rate_due(*s, now_millis) {
                    (
                        CodexSession { pending_rate: Some(s.next_id), next_id: (s.next_id + 1) as u64, ..*s },
                        seq![CodexAction::SendRateLimitsRead(s.next_id)],
                    )
                } else {
                    (*s, Seq::<CodexAction>::empty())
                };
                if activity_due(s1, now_millis) {
                    assert(actions@ =~= a1.push(CodexAction::SendUsageRead(s1.next_id)));
                } else {
                    assert(actions@ =~= a1);
                }
            }
            (next, actions)
        },
        CodexEvent::Reply { id, has_error, has_result, now_millis } => {
            let mut next = *s;
            let mut actions: Vec<CodexAction> = Vec::new();
            let key = match id {
                Some(i) => i,
                None => 0,
            };
            if id == Some(s.initialize_id) {
                if has_error {
                    actions.push(CodexAction::Fail);
                } else {
                    next.initialized = true;
                    next.next_rate_at = now_millis;
                    next.next_activity_at = now_millis;
                    actions.push(CodexAction::MarkReady { rate: s.rate_enabled, activity: s.activity_enabled });
                }
            } else if Some(key) == s.pending_rate {
                next.pending_rate = None;
                next.next_rate_at = now_millis + s.interval_millis;
                if has_error {
                    actions.push(CodexAction::CachedRate);
                } else if has_result {
                    actions.push(CodexAction::StoreRate);
                }
            } else if Some(key) == s.pending_activity {
                next.pending_activity = None;
                next.next_activity_at = now_millis + s.interval_millis;
                if has_error {
                    actions.push(CodexAction::CachedActivity);
                } else if has_result {
                    actions.push(CodexAction::StoreActivity);
                }
            }
            proof {
                assert(actions@ =~= codex_session_step(*s, e).1);
            }
            (next, actions)
        },
    }
}

/// The one-shot status read: the ids it uses and the id of its rate-limit read.
#[derive(Clone, Copy, Debug, PartialEq, Eq, Structural)]
pub struct CodexOnce {
    pub initialize_id: u64,
    pub next_id: u64,
    pub rate_id: Option<u64>,
}

/// The one-shot read starts by sending `initialize` with id 1.
pub open spec fn once_start() -> (CodexOnce, CodexAction) {
    (CodexOnce { initialize_id: 1, next_id: 2, rate_id: None }, CodexAction::SendInitialize(1))
}

pub fn codex_once_start() -> (r: (CodexOnce, CodexAction))
    ensures
        r == once_start(),
{
    (CodexOnce { initialize_id: 1, next_id: 2, rate_id: None }, CodexAction::SendInitialize(1))
}

/// One reply of the one-shot read: the `initialize` reply sends the rate-limit read
/// (or ends the read with its error); the reply to that read ends the read with its
/// error, its result, or the lack of one; other replies change nothing.
pub open spec fn codex_once_transition(s: CodexOnce, e: CodexEvent) -> (CodexOnce, CodexAction) {
    match e {
        CodexEvent::Tick { .. } => (s, CodexAction::Nothing),
        CodexEvent::Reply { id, has_error, has_result, .. } => {
            if id == Some(s.initialize_id) {
                if has_error {
                    (s, CodexAction::Fail)
                } else {
                    (
                        CodexOnce { rate_id: Some(s.next_id), next_id: (s.next_id + 1) as u64, ..s },
                        CodexAction::SendRateLimitsRead(s.next_id),
                    )
                }
            } else if id is Some && id == s.rate_id {
                if has_error {
                    (s, CodexAction::Fail)
                } else if has_result {
                    (s, CodexAction::StoreRate)
                } else {
                    (s, CodexAction::MissingResult)
                }
            } else {
                (s, CodexAction::Nothing)
            }
        },
    }
}

/// The one-shot read asks for the rate limits, with a fresh id, once `initialize` is
/// answered without an error; the answer to that read ends it with the result it
/// carries, or with its error; replies to neither change nothing.
pub proof fn law_status_read_ends_with_its_answer(s: CodexOnce, id: u64, has_error: bool, has_result: bool)
    requires
        s.next_id < u64::MAX,
    ensures
        ({
            let (n, a) = codex_once_transition(
                s,
                CodexEvent::Reply { id: Some(id), has_error, has_result, now_millis: 0 },
            );
            &&& id == s.initialize_id && !has_error ==> a == CodexAction::SendRateLimitsRead(s.next_id)
                && n.rate_id == Some(s.next_id) && n.next_id == s.next_id + 1
            &&& id == s.initialize_id && has_error ==> a == CodexAction::Fail
            &&& id != s.initialize_id && s.rate_id == Some(id) ==> n == s && a == if has_error {
                CodexAction::Fail
            } else if has_result {
                CodexAction::StoreRate
            } else {
                CodexAction::MissingResult
            }
            &&& id != s.initialize_id && s.rate_id != Some(id) ==> n == s && a == CodexAction::Nothing
        }),
{
}

pub fn codex_once_step(s: &CodexOnce, e: CodexEvent) -> (r: (CodexOnce, CodexAction))
    requires
        s.next_id < u64::MAX,
    ensures
        r == codex_once_transition(*s, e),
{
    match e {
        CodexEvent::Tick { .. } => (*s, CodexAction::Nothing),
        CodexEvent::Reply { id, has_error, has_result, .. } => {
            if id == Some(s.initialize_id) {
                if has_error {
                    (*s, CodexAction::Fail)
                } else {
                    (
                        CodexOnce { rate_id: Some(s.next_id), next_id: s.next_id + 1, ..*s },
                        CodexAction::SendRateLimitsRead(s.next_id),
                    )
                }
            } else if id.is_some() && id == s.rate_id {
                if has_error {
                    (*s, CodexAction::Fail)
                } else if has_result {
                    (*s, CodexAction::StoreRate)
                } else {
                    (*s, CodexAction::MissingResult)
                }
            } else {
                (*s, CodexAction::Nothing)
            }
        },
    }
}

/// What a reply's text says, once read as JSON: its numeric id (none when it has
/// none), whether it has an `error` member and whether it has a `result` member; none
/// when the text is not JSON.
pub uninterp spec fn reply_fields(raw: Seq<char>) -> Option<(Option<u64>, bool, bool)>;

/// Calls `serde_json::from_str::<serde_json::Value>` on the reply, then
/// `Value::get("id")` with `Value::as_u64`, and whether `get("error")` and
/// `get("result")` find a member; the outcome depends on the text alone and is named
/// `reply_fields`.
#[verifier::external_body]
fn read_reply(raw: &str) -> (r: Option<(Option<u64>, bool, bool)>)
    ensures
        r == reply_fields(raw@),
{
    let value: serde_json::Value = serde_json::from_str(raw).ok()?;
    Some((
        value.get("id").and_then(serde_json::Value::as_u64),
        value.get("error").is_some(),
        value.get("result").is_some(),
    ))
}

/// One reply of the client, from its text: `None` when the text is not JSON (which
/// ends the client), else the step on the reply it describes.
pub fn codex_reply(s: &CodexSession, raw: &str, now_millis: u64) -> (r: Option<(CodexSession, Vec<CodexAction>)>)
    requires
        s.next_id + 2 <= u64::MAX,
        now_millis + s.interval_millis <= u64::MAX,
    ensures
        match reply_fields(raw@) {
            None => r is None,
            Some((id, e, res)) => r matches Some(x) && x.0 == codex_session_step(
                *s,
                CodexEvent::Reply { id, has_error: e, has_result: res, now_millis },
            ).0 && x.1@ == codex_session_step(
                *s,
                CodexEvent::Reply { id, has_error: e, has_result: res, now_millis },
            ).1,
        },
{
    match read_reply(raw) {
        None => None,
        Some((id, has_error, has_result)) => Some(
            codex_step(s, CodexEvent::Reply { id, has_error, has_result, now_millis }),
        ),
    }
}

/// One reply of the one-shot read, from its text: `None` when the text is not JSON,
/// else the transition on the reply it describes.
pub fn codex_once_reply(s: &CodexOnce, raw: &str) -> (r: Option<(CodexOnce, CodexAction)>)
    requires
        s.next_id < u64::MAX,
    ensures
        match reply_fields(raw@) {
            None => r is None,
            Some((id, e, res)) => r == Some(
                codex_once_transition(*s, CodexEvent::Reply { id, has_error: e, has_result: res, now_millis: 0 }),
            ),
        },
{
    match read_reply(raw) {
        None => None,
        Some((id, has_error, has_result)) => Some(
            codex_once_step(s, CodexEvent::Reply { id, has_error, has_result, now_millis: 0 }),
        ),
    }
}

} // verus!
