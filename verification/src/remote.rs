//! The transport-neutral remote access boundary.
//!
//! Authentication belongs to a transport adapter. This boundary accepts only
//! an already-authenticated Principal, binds it to an ephemeral session, and
//! authorizes the Agent identity a request asserts before the unchanged
//! protocol is dispatched. It holds no credentials and no durable state:
//! recreating it invalidates every session.
use crate::error::text_of;
use crate::protocol::{ProtocolCall, ProtocolRequest};
use crate::text::{is_blank, str_equal, str_is_blank};
use vstd::prelude::*;

verus! {

broadcast use vstd::string::group_string_axioms;

pub const REMOTE_ACCESS_CONTRACT_VERSION: &'static str = "1";

#[derive(Clone, Debug, PartialEq, Eq)]
pub struct RemoteAccessCapabilities {
    pub contract_version: String,
    pub authentication_required: bool,
    pub reauthentication_required_on_reconnect: bool,
    pub core_restart_invalidates_sessions: bool,
    pub disconnect_cancels_operations: bool,
    pub durable_state_reconciliation: bool,
}

#[derive(Clone, Debug, PartialEq, Eq)]
pub struct AuthenticatedPrincipal {
    pub principal_id: String,
    pub agent_ids: Vec<String>,
}

#[derive(Clone, Debug, PartialEq, Eq)]
pub struct RemoteSession {
    pub session_id: String,
    pub principal_id: String,
    pub established_at_ms: i64,
    pub expires_at_ms: i64,
}

#[derive(Clone, Copy, Debug, PartialEq, Eq, Structural)]
pub enum RemoteAccessErrorCode {
    AuthenticationRequired,
    AuthenticationFailed,
    SessionExpired,
    InvalidPrincipal,
    InvalidAgentBinding,
    Forbidden,
    CoreUnavailable,
}

#[derive(Clone, Debug, PartialEq, Eq)]
pub struct RemoteAccessError {
    pub code: RemoteAccessErrorCode,
    pub message: String,
    pub retryable: bool,
}

/// `e` carries `code`, `message` and `retryable`.
pub open spec fn access_error(
    e: RemoteAccessError,
    code: RemoteAccessErrorCode,
    message: Seq<char>,
    retryable: bool,
) -> bool {
    &&& e.code == code
    &&& e.message@ == message
    &&& e.retryable == retryable
}

impl RemoteAccessError {
    pub fn authentication_required() -> (e: RemoteAccessError)
        ensures
            access_error(
                e,
                RemoteAccessErrorCode::AuthenticationRequired,
                "caller authentication is required"@,
                false,
            ),
    {
        RemoteAccessError::new(
            RemoteAccessErrorCode::AuthenticationRequired,
            "caller authentication is required",
            false,
        )
    }

    pub fn authentication_failed() -> (e: RemoteAccessError)
        ensures
            access_error(
                e,
                RemoteAccessErrorCode::AuthenticationFailed,
                "caller authentication failed"@,
                false,
            ),
    {
        RemoteAccessError::new(
            RemoteAccessErrorCode::AuthenticationFailed,
            "caller authentication failed",
            false,
        )
    }

    pub fn core_unavailable() -> (e: RemoteAccessError)
        ensures
            access_error(e, RemoteAccessErrorCode::CoreUnavailable, "Pong Core is unavailable"@, true),
    {
        RemoteAccessError::new(RemoteAccessErrorCode::CoreUnavailable, "Pong Core is unavailable", true)
    }

    pub fn new(code: RemoteAccessErrorCode, message: &str, retryable: bool) -> (e:
        RemoteAccessError)
        ensures
            access_error(e, code, message@, retryable),
    {
        RemoteAccessError { code, message: text_of(message), retryable }
    }
}

#[derive(Debug)]
struct BoundSession {
    view: RemoteSession,
    agent_ids: Vec<String>,
}

/// The Agent identities a bound session may assert.
pub open spec fn agent_set(ids: Seq<String>) -> Set<Seq<char>> {
    ids.map_values(|s: String| s@).to_set()
}

/// Whether the sessions in `s` have pairwise distinct identities.
spec fn distinct_ids(s: Seq<BoundSession>) -> bool {
    forall|i: int, j: int|
        0 <= i < s.len() && 0 <= j < s.len() && i != j ==> (#[trigger] s[i]).view.session_id@
            != (#[trigger] s[j]).view.session_id@
}

spec fn holds_id(s: Seq<BoundSession>, id: Seq<char>) -> bool {
    exists|i: int| 0 <= i < s.len() && (#[trigger] s[i]).view.session_id@ == id
}

spec fn index_of(s: Seq<BoundSession>, id: Seq<char>) -> int {
    choose|i: int| 0 <= i < s.len() && (#[trigger] s[i]).view.session_id@ == id
}

proof fn lemma_index_of(s: Seq<BoundSession>, i: int)
    requires
        distinct_ids(s),
        0 <= i < s.len(),
    ensures
        holds_id(s, s[i].view.session_id@),
        index_of(s, s[i].view.session_id@) == i,
{
    let id = s[i].view.session_id@;
    assert(holds_id(s, id));
    let j = index_of(s, id);
    assert(s[j].view.session_id@ == id);
}

/// Ephemeral session and Principal-to-Agent authorization boundary.
#[derive(Debug)]
pub struct RemoteAccessBoundary {
    sessions: Vec<BoundSession>,
}

impl RemoteAccessBoundary {
    #[verifier::type_invariant]
    spec fn sessions_distinct(self) -> bool {
        distinct_ids(self.sessions@)
    }

    /// The session bound under `id`, if any.
    pub closed spec fn session_view(self, id: Seq<char>) -> Option<RemoteSession> {
        if holds_id(self.sessions@, id) {
            Some(self.sessions@[index_of(self.sessions@, id)].view)
        } else {
            None
        }
    }

    /// The Agent identities the session bound under `id` may assert.
    pub closed spec fn agents_view(self, id: Seq<char>) -> Set<Seq<char>> {
        if holds_id(self.sessions@, id) {
            agent_set(self.sessions@[index_of(self.sessions@, id)].agent_ids@)
        } else {
            Set::empty()
        }
    }

    /// A session identity that is not bound carries no Agent identities.
    pub proof fn lemma_unbound_has_no_agents(self, id: Seq<char>)
        ensures
            self.session_view(id) is None ==> self.agents_view(id) == Set::<Seq<char>>::empty(),
    {
    }

    /// A session bound under `id` carries `id` as its session identity.
    pub proof fn lemma_session_bound_under_its_id(self, id: Seq<char>)
        ensures
            self.session_view(id) matches Some(s) ==> s.session_id@ == id,
    {
        if holds_id(self.sessions@, id) {
            let i = index_of(self.sessions@, id);
            assert(self.sessions@[i].view.session_id@ == id);
        }
    }

    /// Whether no session is bound.
    pub closed spec fn is_empty(self) -> bool {
        self.sessions@.len() == 0
    }

    pub fn new() -> (r: RemoteAccessBoundary)
        ensures
            r.is_empty(),
            forall|id: Seq<char>| #[trigger] r.session_view(id) is None,
    {
        RemoteAccessBoundary { sessions: Vec::new() }
    }

    /// What the boundary promises its transports.
    pub fn capabilities(&self) -> (r: RemoteAccessCapabilities)
        ensures
            r.contract_version@ == REMOTE_ACCESS_CONTRACT_VERSION@,
            r.authentication_required,
            r.reauthentication_required_on_reconnect,
            r.core_restart_invalidates_sessions,
            !r.disconnect_cancels_operations,
            r.durable_state_reconciliation,
    {
        RemoteAccessCapabilities {
            contract_version: text_of(REMOTE_ACCESS_CONTRACT_VERSION),
            authentication_required: true,
            reauthentication_required_on_reconnect: true,
            core_restart_invalidates_sessions: true,
            disconnect_cancels_operations: false,
            durable_state_reconciliation: true,
        }
    }

    fn position(&self, session_id: &str) -> (r: Option<usize>)
        ensures
            match r {
                Some(i) => i < self.sessions@.len() && self.sessions@[i as int].view.session_id@
                    == session_id@,
                None => !holds_id(self.sessions@, session_id@),
            },
    {
        let mut i: usize = 0;
        while i < self.sessions.len()
            invariant
                i <= self.sessions@.len(),
                forall|k: int|
                    0 <= k < i ==> (#[trigger] self.sessions@[k]).view.session_id@ != session_id@,
            decreases self.sessions@.len() - i,
        {
            if str_equal(self.sessions[i].view.session_id.as_str(), session_id) {
                return Some(i);
            }
            i = i + 1;
        }
        None
    }

    /// Bind a Principal that a transport already authenticated to a new
    /// session lasting `ttl_ms` from `now_ms`.
    pub fn bind_authenticated(
        &mut self,
        principal: AuthenticatedPrincipal,
        session_id: String,
        now_ms: i64,
        ttl_ms: i64,
    ) -> (r: Result<RemoteSession, RemoteAccessError>)
        ensures
            ({
                let valid = !is_blank(principal.principal_id@) && !is_blank(session_id@)
                    && principal.agent_ids@.len() > 0 && (forall|i: int|
                    0 <= i < principal.agent_ids@.len() ==> !is_blank(
                        (#[trigger] principal.agent_ids@[i])@,
                    )) && ttl_ms > 0;
                &&& !valid ==> (r matches Err(e) && access_error(
                    e,
                    RemoteAccessErrorCode::InvalidPrincipal,
                    "authenticated Principal or session binding is invalid"@,
                    false,
                ))
                &&& (valid && now_ms + ttl_ms > i64::MAX) ==> (r matches Err(e) && access_error(
                    e,
                    RemoteAccessErrorCode::InvalidPrincipal,
                    "session lifetime is invalid"@,
                    false,
                ))
                &&& (valid && now_ms + ttl_ms <= i64::MAX && old(self).session_view(session_id@)
                    is Some) ==> (r matches Err(e) && access_error(
                    e,
                    RemoteAccessErrorCode::Forbidden,
                    "session identity is already bound"@,
                    false,
                ))
                &&& r is Ok <==> (valid && now_ms + ttl_ms <= i64::MAX && old(self).session_view(
                    session_id@,
                ) is None)
            }),
            r is Err ==> forall|id: Seq<char>|
                #[trigger] final(self).session_view(id) == old(self).session_view(id)
                    && final(self).agents_view(id) == old(self).agents_view(id),
            r matches Ok(v) ==> {
                &&& v.session_id == session_id
                &&& v.principal_id == principal.principal_id
                &&& v.established_at_ms == now_ms
                &&& v.expires_at_ms == now_ms + ttl_ms
                &&& final(self).session_view(session_id@) == Some(v)
                &&& final(self).agents_view(session_id@) == agent_set(principal.agent_ids@)
                &&& forall|id: Seq<char>|
                    id != session_id@ ==> #[trigger] final(self).session_view(id) == old(self).session_view(id) && final(self).agents_view(id) == old(self).agents_view(id)
            },
    {
        proof {
            use_type_invariant(&*self);
        }
        let mut valid = !str_is_blank(principal.principal_id.as_str()) && !str_is_blank(
            session_id.as_str(),
        ) && principal.agent_ids.len() > 0 && ttl_ms > 0;
        let mut k: usize = 0;
        while k < principal.agent_ids.len()
            invariant
                k <= principal.agent_ids@.len(),
                valid == (!is_blank(principal.principal_id@) && !is_blank(session_id@)
                    && principal.agent_ids@.len() > 0 && ttl_ms > 0 && (forall|i: int|
                    0 <= i < k ==> !is_blank((#[trigger] principal.agent_ids@[i])@))),
            decreases principal.agent_ids@.len() - k,
        {
            if str_is_blank(principal.agent_ids[k].as_str()) {
                valid = false;
            }
            k = k + 1;
        }
        if !valid {
            return Err(
                RemoteAccessError::new(
                    RemoteAccessErrorCode::InvalidPrincipal,
                    "authenticated Principal or session binding is invalid",
                    false,
                ),
            );
        }
        let expires_at_ms = match now_ms.checked_add(ttl_ms) {
            Some(v) => v,
            None => {
                return Err(
                    RemoteAccessError::new(
                        RemoteAccessErrorCode::InvalidPrincipal,
                        "session lifetime is invalid",
                        false,
                    ),
                );
            },
        };
        match self.position(session_id.as_str()) {
            Some(i) => {
                proof {
                    lemma_index_of(self.sessions@, i as int);
                }
                return Err(
                    RemoteAccessError::new(
                        RemoteAccessErrorCode::Forbidden,
                        "session identity is already bound",
                        false,
                    ),
                );
            },
            None => {},
        }
        let view = RemoteSession {
            session_id: session_id.clone(),
            principal_id: principal.principal_id,
            established_at_ms: now_ms,
            expires_at_ms,
        };
        let returned = RemoteSession {
            session_id: view.session_id.clone(),
            principal_id: view.principal_id.clone(),
            established_at_ms: view.established_at_ms,
            expires_at_ms: view.expires_at_ms,
        };
        let ghost before = self.sessions@;
        let bound = BoundSession { view, agent_ids: principal.agent_ids };
        let mut sessions: Vec<BoundSession> = Vec::new();
        std::mem::swap(&mut sessions, &mut self.sessions);
        sessions.push(bound);
        self.sessions = sessions;
        proof {
            let after = self.sessions@;
            assert(after == before.push(bound));
            assert(distinct_ids(after));
            lemma_index_of(after, before.len() as int);
            assert forall|id: Seq<char>| id != session_id@ implies #[trigger] self.session_view(id)
                == old(self).session_view(id) && self.agents_view(id) == old(self).agents_view(
                id,
            ) by {
                if holds_id(before, id) {
                    let i = index_of(before, id);
                    lemma_index_of(after, i);
                } else {
                    assert(!holds_id(after, id));
                }
            }
        }
        Ok(returned)
    }

    /// Authorize a request on a session: the session must be bound and
    /// unexpired at `now_ms` (an expired one is dropped), and every call
    /// but `hello` must assert an Agent identity the session's Principal
    /// is bound to.
    pub fn authorize(&mut self, session_id: &str, request: ProtocolRequest, now_ms: i64) -> (r:
        Result<AuthorizedProtocolRequest, RemoteAccessError>)
        ensures
            match old(self).session_view(session_id@) {
                None => r matches Err(e) && access_error(
                    e,
                    RemoteAccessErrorCode::AuthenticationRequired,
                    "an authenticated session is required"@,
                    false,
                ),
                Some(s) => if now_ms >= s.expires_at_ms {
                    &&& r matches Err(e) && access_error(
                        e,
                        RemoteAccessErrorCode::SessionExpired,
                        "authenticated session has expired"@,
                        true,
                    )
                    &&& final(self).session_view(session_id@) is None
                } else if request.call is Hello {
                    r matches Ok(a) && a.session_spec() == s && a.request_spec() == request
                } else {
                    match request.caller_agent_id {
                        None => r matches Err(e) && access_error(
                            e,
                            RemoteAccessErrorCode::InvalidAgentBinding,
                            "protocol request has no Principal-bound Agent identity"@,
                            false,
                        ),
                        Some(agent) => if old(self).agents_view(session_id@).contains(agent@) {
                            r matches Ok(a) && a.session_spec() == s && a.request_spec() == request
                        } else {
                            r matches Err(e) && access_error(
                                e,
                                RemoteAccessErrorCode::Forbidden,
                                "Principal is not authorized for the asserted Agent"@,
                                false,
                            )
                        },
                    }
                },
            },
            forall|id: Seq<char>|
                id != session_id@ ==> #[trigger] final(self).session_view(id) == old(self).session_view(id) && final(self).agents_view(id) == old(self).agents_view(id),
            !(old(self).session_view(session_id@) matches Some(s) && now_ms >= s.expires_at_ms) ==> (
            final(self).session_view(session_id@) == old(self).session_view(session_id@) && final(self).agents_view(session_id@) == old(self).agents_view(session_id@)),
    {
        proof {
            use_type_invariant(&*self);
        }
        let i = match self.position(session_id) {
            Some(i) => i,
            None => {
                return Err(
                    RemoteAccessError::new(
                        RemoteAccessErrorCode::AuthenticationRequired,
                        "an authenticated session is required",
                        false,
                    ),
                );
            },
        };
        proof {
            lemma_index_of(self.sessions@, i as int);
        }
        if now_ms >= self.sessions[i].view.expires_at_ms {
            self.remove_at(i);
            return Err(
                RemoteAccessError::new(
                    RemoteAccessErrorCode::SessionExpired,
                    "authenticated session has expired",
                    true,
                ),
            );
        }
        let session = &self.sessions[i];
        let is_hello = match &request.call {
            ProtocolCall::Hello => true,
            _ => false,
        };
        if !is_hello {
            let agent_id = match &request.caller_agent_id {
                Some(a) => a.as_str(),
                None => {
                    return Err(
                        RemoteAccessError::new(
                            RemoteAccessErrorCode::InvalidAgentBinding,
                            "protocol request has no Principal-bound Agent identity",
                            false,
                        ),
                    );
                },
            };
            if !contains_text(&session.agent_ids, agent_id) {
                return Err(
                    RemoteAccessError::new(
                        RemoteAccessErrorCode::Forbidden,
                        "Principal is not authorized for the asserted Agent",
                        false,
                    ),
                );
            }
        }
        let view = RemoteSession {
            session_id: session.view.session_id.clone(),
            principal_id: session.view.principal_id.clone(),
            established_at_ms: session.view.established_at_ms,
            expires_at_ms: session.view.expires_at_ms,
        };
        Ok(AuthorizedProtocolRequest { session: view, request })
    }

    fn remove_at(&mut self, i: usize)
        requires
            i < old(self).sessions@.len(),
        ensures
            final(self).session_view(old(self).sessions@[i as int].view.session_id@) is None,
            forall|id: Seq<char>|
                id != old(self).sessions@[i as int].view.session_id@ ==> #[trigger] final(self).session_view(id) == old(self).session_view(id) && final(self).agents_view(id)
                    == old(self).agents_view(id),
            final(self).sessions@.len() == old(self).sessions@.len() - 1,
    {
        proof {
            use_type_invariant(&*self);
        }
        let ghost before = self.sessions@;
        let ghost gone = before[i as int].view.session_id@;
        let mut sessions: Vec<BoundSession> = Vec::new();
        std::mem::swap(&mut sessions, &mut self.sessions);
        sessions.remove(i);
        self.sessions = sessions;
        proof {
            let after = self.sessions@;
            assert(after =~= before.remove(i as int));
            assert forall|a: int, b: int|
                0 <= a < after.len() && 0 <= b < after.len() && a != b implies (#[trigger] after[a]).view.session_id@
                != (#[trigger] after[b]).view.session_id@ by {
                let a0 = if a < i {
                    a
                } else {
                    a + 1
                };
                let b0 = if b < i {
                    b
                } else {
                    b + 1
                };
                assert(after[a] == before[a0]);
                assert(after[b] == before[b0]);
            }
            assert(distinct_ids(after));
            if holds_id(after, gone) {
                let k = index_of(after, gone);
                let k0 = if k < i {
                    k
                } else {
                    k + 1
                };
                assert(after[k] == before[k0]);
                assert(false);
            }
            assert forall|id: Seq<char>| id != gone implies #[trigger] self.session_view(id)
                == old(self).session_view(id) && self.agents_view(id) == old(self).agents_view(
                id,
            ) by {
                if holds_id(before, id) {
                    let k0 = index_of(before, id);
                    assert(k0 != i);
                    let k = if k0 < i {
                        k0
                    } else {
                        k0 - 1
                    };
                    assert(after[k] == before[k0]);
                    lemma_index_of(after, k);
                } else {
                    if holds_id(after, id) {
                        let k = index_of(after, id);
                        let k0 = if k < i {
                            k
                        } else {
                            k + 1
                        };
                        assert(after[k] == before[k0]);
                        assert(false);
                    }
                }
            }
        }
    }

    /// End the session bound under `session_id`; whether one was bound.
    pub fn disconnect(&mut self, session_id: &str) -> (r: bool)
        ensures
            r == old(self).session_view(session_id@) is Some,
            final(self).session_view(session_id@) is None,
            forall|id: Seq<char>|
                id != session_id@ ==> #[trigger] final(self).session_view(id) == old(self).session_view(id) && final(self).agents_view(id) == old(self).agents_view(id),
    {
        proof {
            use_type_invariant(&*self);
        }
        match self.position(session_id) {
            Some(i) => {
                proof {
                    lemma_index_of(self.sessions@, i as int);
                }
                self.remove_at(i);
                true
            },
            None => false,
        }
    }

    /// End every session.
    pub fn invalidate_all(&mut self)
        ensures
            final(self).is_empty(),
            forall|id: Seq<char>| #[trigger] final(self).session_view(id) is None,
    {
        self.sessions = Vec::new();
    }

    /// The session bound under `session_id`.
    pub fn session(&self, session_id: &str) -> (r: Option<&RemoteSession>)
        ensures
            match r {
                Some(s) => self.session_view(session_id@) == Some(*s),
                None => self.session_view(session_id@) is None,
            },
    {
        proof {
            use_type_invariant(self);
        }
        match self.position(session_id) {
            Some(i) => {
                proof {
                    lemma_index_of(self.sessions@, i as int);
                }
                Some(&self.sessions[i].view)
            },
            None => None,
        }
    }
}

impl Default for RemoteAccessBoundary {
    fn default() -> (r: RemoteAccessBoundary)
        ensures
            r.is_empty(),
    {
        RemoteAccessBoundary::new()
    }
}

fn contains_text(ids: &Vec<String>, id: &str) -> (r: bool)
    ensures
        r == agent_set(ids@).contains(id@),
{
    let mut i: usize = 0;
    while i < ids.len()
        invariant
            i <= ids@.len(),
            forall|k: int| 0 <= k < i ==> (#[trigger] ids@[k])@ != id@,
        decreases ids@.len() - i,
    {
        if str_equal(ids[i].as_str(), id) {
            proof {
                assert(ids@.map_values(|s: String| s@)[i as int] == id@);
            }
            return true;
        }
        i = i + 1;
    }
    proof {
        if agent_set(ids@).contains(id@) {
            let m = ids@.map_values(|s: String| s@);
            let k = choose|k: int| 0 <= k < m.len() && m[k] == id@;
            assert(ids@[k]@ == id@);
        }
    }
    false
}

/// A protocol request admitted on a bound session.
#[derive(Clone, Debug)]
pub struct AuthorizedProtocolRequest {
    session: RemoteSession,
    request: ProtocolRequest,
}

impl AuthorizedProtocolRequest {
    pub closed spec fn session_spec(self) -> RemoteSession {
        self.session
    }

    pub closed spec fn request_spec(self) -> ProtocolRequest {
        self.request
    }

    pub fn session(&self) -> (r: &RemoteSession)
        ensures
            *r == self.session_spec(),
    {
        &self.session
    }

    pub fn request(&self) -> (r: &ProtocolRequest)
        ensures
            *r == self.request_spec(),
    {
        &self.request
    }

    pub fn into_request(self) -> (r: ProtocolRequest)
        ensures
            r == self.request_spec(),
    {
        self.request
    }
}

} // verus!
