//! The rules of the HTTP transport for the external Agent protocol.
//!
//! The transport owns HTTP, credential verification and ephemeral sessions;
//! it knows only the protocol dispatcher. This module holds what it
//! decides: whether a configuration is acceptable, which credential a
//! request presents and whom it authenticates, whether a Principal is
//! within its rate limit, which HTTP status and diagnostic outcome a reply
//! gets, and the bounded diagnostics it keeps. The listener, the worker
//! threads and the clock belong to the host.
use crate::cas::{same_digest_bytes, sha256_of};
use crate::error::text_of;
use crate::protocol::{
    ProtocolCall, ProtocolErrorCode, ProtocolRequest, ProtocolResponse, ProtocolResult,
    ProtocolStatus,
};
use crate::remote::{
    access_error, agent_set, AuthenticatedPrincipal, AuthorizedProtocolRequest,
    RemoteAccessBoundary, RemoteAccessError, RemoteAccessErrorCode,
};
use crate::text::{
    chars_of, clone_opt, has_space, lemma_lower_seq_ignores_case, same_ignoring_ascii_case, is_blank, is_space, is_space_char, lower, lower_seq,
    str_equal, str_has_space, str_is_blank, string_from_chars,
};
use crate::cas::sha256;
use crate::control::last_member;
use crate::json::JsonValue;
use vstd::utf8::encode_utf8;
use vstd::prelude::*;

verus! {

broadcast use vstd::string::group_string_axioms;

pub const HTTP_PROTOCOL_PATH: &'static str = "/v1/protocol";

pub const DEFAULT_HTTP_MAX_BODY_BYTES: usize = 1048576;

pub const DEFAULT_HTTP_SESSION_TTL_MS: i64 = 30000;

pub const DEFAULT_HTTP_WORKER_THREADS: usize = 8;

pub const DEFAULT_HTTP_MAX_RESPONSE_BYTES: usize = 4194304;

pub const DEFAULT_HTTP_RATE_LIMIT_REQUESTS: usize = 120;

pub const DEFAULT_HTTP_RATE_LIMIT_WINDOW_MS: i64 = 60000;

pub const DEFAULT_HTTP_RATE_LIMIT_MAX_PRINCIPALS: usize = 1024;

/// How many recent requests and diagnostics the metrics keep.
pub const HTTP_DIAGNOSTIC_CAPACITY: usize = 64;

/// The body sent in place of a response that exceeds the response limit.
pub const RESPONSE_TOO_LARGE_BODY: &'static str =
    "{\"code\":\"RESPONSE_TOO_LARGE\",\"message\":\"HTTP response is too large\",\"retryable\":false}";

/// The smallest response limit: the too-large body itself must fit.
pub const MIN_HTTP_MAX_RESPONSE_BYTES: usize = 86;

/// An IP address as the listener binds it.
#[derive(Clone, Copy, Debug, PartialEq, Eq, Structural)]
pub enum IpAddress {
    V4(u8, u8, u8, u8),
    V6(u16, u16, u16, u16, u16, u16, u16, u16),
}

/// A socket address: an IP address and a port.
#[derive(Clone, Copy, Debug, PartialEq, Eq, Structural)]
pub struct ListenAddress {
    pub ip: IpAddress,
    pub port: u16,
}

/// The loopback addresses: `127.0.0.0/8` and `::1`.
pub open spec fn loopback(address: ListenAddress) -> bool {
    match address.ip {
        IpAddress::V4(a, _, _, _) => a == 127,
        IpAddress::V6(a, b, c, d, e, f, g, h) => a == 0 && b == 0 && c == 0 && d == 0 && e == 0
            && f == 0 && g == 0 && h == 1,
    }
}

/// The loopback addresses are exactly the IPv4 block `127.0.0.0/8` and
/// the IPv6 address `::1`: every address in the block is loopback, and an
/// IPv4 address outside it, or an IPv6 address other than `::1`, is not.
pub proof fn lemma_loopback_addresses(address: ListenAddress)
    ensures
        address.ip matches IpAddress::V4(a, _, _, _) ==> (loopback(address) <==> a == 127),
        address.ip == IpAddress::V6(0, 0, 0, 0, 0, 0, 0, 1) ==> loopback(address),
        (address.ip is V6 && address.ip != IpAddress::V6(0, 0, 0, 0, 0, 0, 0, 1)) ==> !loopback(
            address,
        ),
{
}

pub fn is_loopback_address(address: ListenAddress) -> (r: bool)
    ensures
        r == loopback(address),
{
    match address.ip {
        IpAddress::V4(a, _, _, _) => a == 127,
        IpAddress::V6(a, b, c, d, e, f, g, h) => a == 0 && b == 0 && c == 0 && d == 0 && e == 0
            && f == 0 && g == 0 && h == 1,
    }
}

#[derive(Clone, Debug, PartialEq, Eq)]
pub struct HttpServerConfig {
    pub listen_addr: ListenAddress,
    pub allow_non_loopback: bool,
    pub max_body_bytes: usize,
    pub session_ttl_ms: i64,
    pub worker_threads: usize,
    pub max_response_bytes: usize,
    pub rate_limit_requests: usize,
    pub rate_limit_window_ms: i64,
    pub rate_limit_max_principals: usize,
}

impl Default for HttpServerConfig {
    /// Loopback on an ephemeral port, with the default limits.
    fn default() -> (r: HttpServerConfig)
        ensures
            r.listen_addr == (ListenAddress { ip: IpAddress::V4(127, 0, 0, 1), port: 0 }),
            !r.allow_non_loopback,
            r.max_body_bytes == DEFAULT_HTTP_MAX_BODY_BYTES,
            r.session_ttl_ms == DEFAULT_HTTP_SESSION_TTL_MS,
            r.worker_threads == DEFAULT_HTTP_WORKER_THREADS,
            r.max_response_bytes == DEFAULT_HTTP_MAX_RESPONSE_BYTES,
            r.rate_limit_requests == DEFAULT_HTTP_RATE_LIMIT_REQUESTS,
            r.rate_limit_window_ms == DEFAULT_HTTP_RATE_LIMIT_WINDOW_MS,
            r.rate_limit_max_principals == DEFAULT_HTTP_RATE_LIMIT_MAX_PRINCIPALS,
    {
        HttpServerConfig {
            listen_addr: ListenAddress { ip: IpAddress::V4(127, 0, 0, 1), port: 0 },
            allow_non_loopback: false,
            max_body_bytes: DEFAULT_HTTP_MAX_BODY_BYTES,
            session_ttl_ms: DEFAULT_HTTP_SESSION_TTL_MS,
            worker_threads: DEFAULT_HTTP_WORKER_THREADS,
            max_response_bytes: DEFAULT_HTTP_MAX_RESPONSE_BYTES,
            rate_limit_requests: DEFAULT_HTTP_RATE_LIMIT_REQUESTS,
            rate_limit_window_ms: DEFAULT_HTTP_RATE_LIMIT_WINDOW_MS,
            rate_limit_max_principals: DEFAULT_HTTP_RATE_LIMIT_MAX_PRINCIPALS,
        }
    }
}

/// A transport failure, by a fixed message.
#[derive(Clone, Debug, PartialEq, Eq)]
pub struct HttpServerError {
    message: &'static str,
}

impl HttpServerError {
    pub closed spec fn message_view(self) -> Seq<char> {
        self.message@
    }

    pub fn new(message: &'static str) -> (e: HttpServerError)
        ensures
            e.message_view() == message@,
    {
        HttpServerError { message }
    }

    pub fn message(&self) -> (r: &'static str)
        ensures
            r@ == self.message_view(),
    {
        self.message
    }
}

/// Check the limits and binding of a server configuration: a
/// non-loopback binding needs explicit authorization, and every limit is
/// positive (the response limit at least fits the too-large body).
pub fn validate_config(config: &HttpServerConfig) -> (r: Result<(), HttpServerError>)
    ensures
        !loopback(config.listen_addr) && !config.allow_non_loopback ==> (r matches Err(e)
            && e.message_view() == "non-loopback HTTP binding requires explicit authorization"@),
        r is Ok <==> (loopback(config.listen_addr) || config.allow_non_loopback) && config.max_body_bytes
            != 0 && config.max_response_bytes >= MIN_HTTP_MAX_RESPONSE_BYTES && config.session_ttl_ms
            > 0 && config.worker_threads != 0 && config.rate_limit_requests != 0
            && config.rate_limit_window_ms > 0 && config.rate_limit_max_principals != 0,
        (loopback(config.listen_addr) || config.allow_non_loopback) && r is Err ==> (r matches Err(e)
            && e.message_view() == "HTTP server limits are invalid"@),
{
    if !is_loopback_address(config.listen_addr) && !config.allow_non_loopback {
        return Err(HttpServerError::new("non-loopback HTTP binding requires explicit authorization"));
    }
    if config.max_body_bytes == 0 || config.max_response_bytes < MIN_HTTP_MAX_RESPONSE_BYTES
        || config.session_ttl_ms <= 0 || config.worker_threads == 0 || config.rate_limit_requests
        == 0 || config.rate_limit_window_ms <= 0 || config.rate_limit_max_principals == 0 {
        return Err(HttpServerError::new("HTTP server limits are invalid"));
    }
    Ok(())
}

/// A bearer credential and the Principal and Agents it authenticates,
/// until an optional expiry.
#[derive(Clone, Debug, PartialEq, Eq)]
pub struct CredentialGrant {
    pub credential: String,
    pub principal_id: String,
    pub agent_ids: Vec<String>,
    pub expires_at_ms: Option<i64>,
}

/// A grant is usable: a non-blank credential and Principal, and at least
/// one Agent, none blank.
pub open spec fn grant_valid(grant: CredentialGrant) -> bool {
    &&& !is_blank(grant.credential@)
    &&& !is_blank(grant.principal_id@)
    &&& grant.agent_ids@.len() > 0
    &&& forall|i: int| 0 <= i < grant.agent_ids@.len() ==> !is_blank((#[trigger] grant.agent_ids@[i])@)
}

pub fn validate_grant(grant: &CredentialGrant) -> (r: Result<(), HttpServerError>)
    ensures
        r is Ok <==> grant_valid(*grant),
        r matches Err(e) ==> e.message_view() == "credential grant is invalid"@,
{
    let mut valid = !str_is_blank(grant.credential.as_str()) && !str_is_blank(
        grant.principal_id.as_str(),
    ) && grant.agent_ids.len() > 0;
    let mut i: usize = 0;
    while i < grant.agent_ids.len()
        invariant
            i <= grant.agent_ids@.len(),
            valid == (!is_blank(grant.credential@) && !is_blank(grant.principal_id@)
                && grant.agent_ids@.len() > 0 && forall|k: int|
                0 <= k < i ==> !is_blank((#[trigger] grant.agent_ids@[k])@)),
        decreases grant.agent_ids@.len() - i,
    {
        if str_is_blank(grant.agent_ids[i].as_str()) {
            valid = false;
        }
        i = i + 1;
    }
    if !valid {
        return Err(HttpServerError::new("credential grant is invalid"));
    }
    Ok(())
}

/// What a credential authenticates, kept under the credential's digest.
#[derive(Debug)]
pub struct PrincipalGrant {
    pub principal_id: String,
    pub agent_ids: Vec<String>,
    pub expires_at_ms: Option<i64>,
}

/// The digest of a credential's UTF-8 bytes, as it is indexed.
pub open spec fn credential_key(credential: Seq<char>) -> Seq<u8> {
    sha256(vstd::utf8::encode_utf8(credential))
}

fn credential_digest(credential: &str) -> (r: [u8; 32])
    ensures
        r@ == credential_key(credential@),
{
    sha256_of(credential.as_bytes())
}

/// A valid grant split into its index key and what it authenticates.
pub fn grant_parts(grant: CredentialGrant) -> (r: Result<([u8; 32], PrincipalGrant), HttpServerError>)
    ensures
        r is Ok <==> grant_valid(grant),
        r matches Err(e) ==> e.message_view() == "credential grant is invalid"@,
        r matches Ok((d, p)) ==> d@ == credential_key(grant.credential@) && p.principal_id
            == grant.principal_id && p.agent_ids == grant.agent_ids && p.expires_at_ms
            == grant.expires_at_ms,
{
    validate_grant(&grant)?;
    let digest = credential_digest(grant.credential.as_str());
    Ok(
        (
            digest,
            PrincipalGrant {
                principal_id: grant.principal_id,
                agent_ids: grant.agent_ids,
                expires_at_ms: grant.expires_at_ms,
            },
        ),
    )
}

/// Verifies the credential a request presents. Hosts may implement their
/// own; the transport only needs the Principal it authenticates.
pub trait CredentialVerifier {
    fn authenticate(&self, credential: &str, now_ms: i64) -> Result<
        AuthenticatedPrincipal,
        RemoteAccessError,
    >;
}

/// `view` holds what `grant` authenticates.
pub open spec fn holds_grant(view: Option<PrincipalGrant>, grant: CredentialGrant) -> bool {
    view matches Some(p) && p.principal_id == grant.principal_id && p.agent_ids == grant.agent_ids
        && p.expires_at_ms == grant.expires_at_ms
}

/// Whether the keys in `s` are pairwise distinct.
pub open spec fn distinct_keys(s: Seq<([u8; 32], PrincipalGrant)>) -> bool {
    forall|i: int, j: int|
        0 <= i < s.len() && 0 <= j < s.len() && i != j ==> (#[trigger] s[i]).0@ != (
        #[trigger] s[j]).0@
}

pub open spec fn key_index(s: Seq<([u8; 32], PrincipalGrant)>, key: Seq<u8>) -> Option<int> {
    if exists|i: int| 0 <= i < s.len() && (#[trigger] s[i]).0@ == key {
        Some(choose|i: int| 0 <= i < s.len() && (#[trigger] s[i]).0@ == key)
    } else {
        None
    }
}

proof fn lemma_key_index(s: Seq<([u8; 32], PrincipalGrant)>, i: int)
    requires
        distinct_keys(s),
        0 <= i < s.len(),
    ensures
        key_index(s, s[i].0@) == Some(i),
{
    let k = s[i].0@;
    assert(exists|j: int| 0 <= j < s.len() && (#[trigger] s[j]).0@ == k);
    let j = choose|j: int| 0 <= j < s.len() && (#[trigger] s[j]).0@ == k;
    assert(s[j].0@ == k);
}

/// An in-memory set of credential grants, indexed by credential digest so
/// that no credential text is retained.
#[derive(Debug)]
pub struct StaticCredentialVerifier {
    grants: Vec<([u8; 32], PrincipalGrant)>,
}

fn find_key(grants: &Vec<([u8; 32], PrincipalGrant)>, key: &[u8; 32]) -> (r: Option<usize>)
    ensures
        match r {
            Some(i) => i < grants@.len() && grants@[i as int].0@ == key@,
            None => forall|i: int| 0 <= i < grants@.len() ==> (#[trigger] grants@[i]).0@ != key@,
        },
{
    let mut i: usize = 0;
    while i < grants.len()
        invariant
            i <= grants@.len(),
            forall|k: int| 0 <= k < i ==> (#[trigger] grants@[k]).0@ != key@,
        decreases grants@.len() - i,
    {
        if same_digest_bytes(&grants[i].0, key) {
            return Some(i);
        }
        i = i + 1;
    }
    None
}

/// Index grants by credential digest: at least one grant, each valid, and
/// no credential twice.
pub fn index_grants(grants: Vec<CredentialGrant>) -> (r: Result<
    Vec<([u8; 32], PrincipalGrant)>,
    HttpServerError,
>)
    ensures
        grants@.len() == 0 ==> (r matches Err(e) && e.message_view()
            == "at least one credential grant is required"@),
        r is Ok <==> grants@.len() > 0 && (forall|i: int|
            0 <= i < grants@.len() ==> grant_valid(#[trigger] grants@[i])) && (forall|i: int, j: int|
            0 <= i < j < grants@.len() ==> credential_key((#[trigger] grants@[i]).credential@)
                != credential_key((#[trigger] grants@[j]).credential@)),
        r matches Ok(v) ==> distinct_keys(v@) && v@.len() == grants@.len() && forall|i: int|
            0 <= i < v@.len() ==> (#[trigger] v@[i]).0@ == credential_key(grants@[i].credential@)
                && v@[i].1.principal_id == grants@[i].principal_id && v@[i].1.agent_ids
                == grants@[i].agent_ids && v@[i].1.expires_at_ms == grants@[i].expires_at_ms,
{
    if grants.len() == 0 {
        return Err(HttpServerError::new("at least one credential grant is required"));
    }
    let ghost input = grants@;
    let mut indexed: Vec<([u8; 32], PrincipalGrant)> = Vec::new();
    let mut rest = grants;
    let mut i: usize = 0;
    let n = rest.len();
    while i < n
        invariant
            n == input.len(),
            n > 0,
            input == grants@,
            i <= n,
            rest@ == input.skip(i as int),
            indexed@.len() == i,
            distinct_keys(indexed@),
            forall|k: int| 0 <= k < i ==> grant_valid(#[trigger] input[k]),
            forall|a: int, b: int|
                0 <= a < b < i ==> credential_key((#[trigger] input[a]).credential@)
                    != credential_key((#[trigger] input[b]).credential@),
            forall|k: int|
                0 <= k < i ==> (#[trigger] indexed@[k]).0@ == credential_key(input[k].credential@)
                    && indexed@[k].1.principal_id == input[k].principal_id && indexed@[k].1.agent_ids
                    == input[k].agent_ids && indexed@[k].1.expires_at_ms == input[k].expires_at_ms,
        decreases n - i,
    {
        let grant = rest.remove(0);
        assert(rest@ =~= input.skip(i + 1));
        assert(grant == input[i as int]);
        let (digest, principal) = match grant_parts(grant) {
            Ok(parts) => parts,
            Err(e) => {
                return Err(e);
            },
        };
        match find_key(&indexed, &digest) {
            Some(k) => {
                proof {
                    assert(credential_key(input[k as int].credential@) == credential_key(
                        input[i as int].credential@,
                    ));
                }
                return Err(HttpServerError::new("credential is duplicated"));
            },
            None => {
                proof {
                    assert forall|a: int| 0 <= a < i implies credential_key(input[a].credential@)
                        != credential_key(input[i as int].credential@) by {
                        assert(indexed@[a].0@ == credential_key(input[a].credential@));
                    }
                }
            },
        }
        indexed.push((digest, principal));
        i = i + 1;
    }
    Ok(indexed)
}

impl StaticCredentialVerifier {
    #[verifier::type_invariant]
    spec fn keys_distinct(self) -> bool {
        distinct_keys(self.grants@)
    }

    /// The grant held under a credential digest, if any.
    pub closed spec fn grant_view(self, key: Seq<u8>) -> Option<PrincipalGrant> {
        match key_index(self.grants@, key) {
            Some(i) => Some(self.grants@[i].1),
            None => None,
        }
    }

    /// How many grants are held.
    pub closed spec fn grant_count(self) -> nat {
        self.grants@.len()
    }

    /// A verifier holding exactly the given grants.
    pub fn new(grants: Vec<CredentialGrant>) -> (r: Result<StaticCredentialVerifier, HttpServerError>)
        ensures
            grants@.len() == 0 ==> (r matches Err(e) && e.message_view()
                == "at least one credential grant is required"@),
            r is Ok <==> grants@.len() > 0 && (forall|i: int|
                0 <= i < grants@.len() ==> grant_valid(#[trigger] grants@[i])) && (forall|
                i: int,
                j: int,
            |
                0 <= i < j < grants@.len() ==> credential_key((#[trigger] grants@[i]).credential@)
                    != credential_key((#[trigger] grants@[j]).credential@)),
            r matches Ok(v) ==> v.grant_count() == grants@.len() && forall|i: int|
                0 <= i < grants@.len() ==> holds_grant(
                    #[trigger] v.grant_view(credential_key(grants@[i].credential@)),
                    grants@[i],
                ),
    {
        let ghost input = grants@;
        let indexed = index_grants(grants)?;
        let v = StaticCredentialVerifier { grants: indexed };
        proof {
            assert forall|i: int| 0 <= i < input.len() implies holds_grant(
                #[trigger] v.grant_view(credential_key(input[i].credential@)),
                input[i],
            ) by {
                lemma_key_index(v.grants@, i);
                assert(v.grants@[i].0@ == credential_key(input[i].credential@));
            }
        }
        Ok(v)
    }

    /// Add a credential without invalidating the others.
    pub fn add_grant(&mut self, grant: CredentialGrant) -> (r: Result<(), HttpServerError>)
        ensures
            !grant_valid(grant) ==> (r matches Err(e) && e.message_view()
                == "credential grant is invalid"@),
            r is Ok <==> grant_valid(grant) && old(self).grant_view(credential_key(grant.credential@))
                is None,
            (grant_valid(grant) && old(self).grant_view(credential_key(grant.credential@)) is Some)
                ==> (r matches Err(e) && e.message_view() == "credential is duplicated"@),
            r is Ok ==> holds_grant(final(self).grant_view(credential_key(grant.credential@)), grant),
            forall|key: Seq<u8>|
                key != credential_key(grant.credential@) ==> #[trigger] final(self).grant_view(key)
                    == old(self).grant_view(key),
            r is Err ==> final(self).grant_view(credential_key(grant.credential@)) == old(
                self,
            ).grant_view(credential_key(grant.credential@)),
    {
        proof {
            use_type_invariant(&*self);
        }
        let key = grant.credential.clone();
        let (digest, principal) = grant_parts(grant)?;
        match find_key(&self.grants, &digest) {
            Some(i) => {
                proof {
                    lemma_key_index(self.grants@, i as int);
                }
                return Err(HttpServerError::new("credential is duplicated"));
            },
            None => {},
        }
        let ghost before = self.grants@;
        let mut grants: Vec<([u8; 32], PrincipalGrant)> = Vec::new();
        std::mem::swap(&mut grants, &mut self.grants);
        grants.push((digest, principal));
        self.grants = grants;
        proof {
            let after = self.grants@;
            lemma_key_index(after, before.len() as int);
            assert forall|k: Seq<u8>| k != digest@ implies #[trigger] self.grant_view(k) == old(
                self,
            ).grant_view(k) by {
                match key_index(before, k) {
                    Some(i) => {
                        lemma_key_index(after, i);
                    },
                    None => {
                        assert(key_index(after, k) is None);
                    },
                }
            }
        }
        Ok(())
    }

    /// Replace every credential at once, after the new set validates; a
    /// refused set leaves the old one in force.
    pub fn replace_grants(&mut self, grants: Vec<CredentialGrant>) -> (r: Result<
        (),
        HttpServerError,
    >)
        ensures
            r is Ok <==> grants@.len() > 0 && (forall|i: int|
                0 <= i < grants@.len() ==> grant_valid(#[trigger] grants@[i])) && (forall|
                i: int,
                j: int,
            |
                0 <= i < j < grants@.len() ==> credential_key((#[trigger] grants@[i]).credential@)
                    != credential_key((#[trigger] grants@[j]).credential@)),
            r is Err ==> forall|key: Seq<u8>| #[trigger] final(self).grant_view(key) == old(
                self,
            ).grant_view(key),
            r is Ok ==> final(self).grant_count() == grants@.len() && (forall|i: int|
                0 <= i < grants@.len() ==> holds_grant(
                    #[trigger] final(self).grant_view(credential_key(grants@[i].credential@)),
                    grants@[i],
                ))
                && forall|key: Seq<u8>|
                (forall|i: int| 0 <= i < grants@.len() ==> key != credential_key(
                    (#[trigger] grants@[i]).credential@,
                )) ==> #[trigger] final(self).grant_view(key) is None,
    {
        let ghost input = grants@;
        let replacement = index_grants(grants)?;
        self.grants = replacement;
        proof {
            assert forall|i: int| 0 <= i < input.len() implies holds_grant(
                #[trigger] self.grant_view(credential_key(input[i].credential@)),
                input[i],
            ) by {
                lemma_key_index(self.grants@, i);
                assert(self.grants@[i].0@ == credential_key(input[i].credential@));
            }
            assert forall|key: Seq<u8>|
                (forall|i: int| 0 <= i < input.len() ==> key != credential_key(
                    (#[trigger] input[i]).credential@,
                )) implies #[trigger] self.grant_view(key) is None by {
                if key_index(self.grants@, key) is Some {
                    let k = key_index(self.grants@, key)->0;
                    assert(self.grants@[k].0@ == credential_key(input[k].credential@));
                }
            }
        }
        Ok(())
    }

    /// Revoke a credential; whether it was held.
    pub fn revoke(&mut self, credential: &str) -> (r: Result<bool, HttpServerError>)
        ensures
            r == Ok::<bool, HttpServerError>(old(self).grant_view(credential_key(credential@))
                is Some),
            final(self).grant_view(credential_key(credential@)) is None,
            forall|key: Seq<u8>|
                key != credential_key(credential@) ==> #[trigger] final(self).grant_view(key) == old(
                    self,
                ).grant_view(key),
    {
        proof {
            use_type_invariant(&*self);
        }
        let digest = credential_digest(credential);
        let i = match find_key(&self.grants, &digest) {
            Some(i) => i,
            None => {
                proof {
                    assert(key_index(self.grants@, digest@) is None);
                }
                return Ok(false);
            },
        };
        proof {
            lemma_key_index(self.grants@, i as int);
        }
        let ghost before = self.grants@;
        let mut grants: Vec<([u8; 32], PrincipalGrant)> = Vec::new();
        std::mem::swap(&mut grants, &mut self.grants);
        grants.remove(i);
        proof {
            let after = grants@;
            assert(after =~= before.remove(i as int));
            assert forall|a: int, b: int|
                0 <= a < after.len() && 0 <= b < after.len() && a != b implies (#[trigger] after[a]).0@
                != (#[trigger] after[b]).0@ by {
                let a0 = if a < i {
                    a
                } else {
                    a + 1
                };
                let b0 = if b < i {
                    b
                } else {
                    b + 1
                };
                assert(after[a] == before[a0]);
                assert(after[b] == before[b0]);
            }
        }
        self.grants = grants;
        proof {
            let after = self.grants@;
            if key_index(after, digest@) is Some {
                let k = key_index(after, digest@)->0;
                let k0 = if k < i {
                    k
                } else {
                    k + 1
                };
                assert(after[k] == before[k0]);
                assert(false);
            }
            assert forall|key: Seq<u8>| key != digest@ implies #[trigger] self.grant_view(key)
                == old(self).grant_view(key) by {
                match key_index(before, key) {
                    Some(k0) => {
                        assert(k0 != i);
                        let k = if k0 < i {
                            k0
                        } else {
                            k0 - 1
                        };
                        assert(after[k] == before[k0]);
                        lemma_key_index(after, k);
                    },
                    None => {
                        if key_index(after, key) is Some {
                            let k = key_index(after, key)->0;
                            let k0 = if k < i {
                                k
                            } else {
                                k + 1
                            };
                            assert(after[k] == before[k0]);
                            assert(false);
                        }
                    },
                }
            }
        }
        Ok(true)
    }

    /// What authenticating `credential` at `now_ms` answers: the held,
    /// unexpired grant's Principal, or `AUTHENTICATION_FAILED`.
    pub open spec fn authentication_answer(
        self,
        credential: Seq<char>,
        now_ms: i64,
        r: Result<AuthenticatedPrincipal, RemoteAccessError>,
    ) -> bool {
        match self.grant_view(credential_key(credential)) {
            Some(p) => if p.expires_at_ms matches Some(e) && now_ms >= e {
                r matches Err(x) && access_error(
                    x,
                    RemoteAccessErrorCode::AuthenticationFailed,
                    "caller authentication failed"@,
                    false,
                )
            } else {
                r matches Ok(a) && a.principal_id == p.principal_id && a.agent_ids@.len()
                    == p.agent_ids@.len() && forall|i: int|
                    0 <= i < p.agent_ids@.len() ==> (#[trigger] a.agent_ids@[i]) == p.agent_ids@[i]
            },
            None => r matches Err(x) && access_error(
                x,
                RemoteAccessErrorCode::AuthenticationFailed,
                "caller authentication failed"@,
                false,
            ),
        }
    }

    /// Authenticate a presented credential at `now_ms`: it must be held
    /// and unexpired.
    pub fn authenticate_credential(&self, credential: &str, now_ms: i64) -> (r: Result<
        AuthenticatedPrincipal,
        RemoteAccessError,
    >)
        ensures
            self.authentication_answer(credential@, now_ms, r),
    {
        proof {
            use_type_invariant(self);
        }
        let digest = credential_digest(credential);
        let i = match find_key(&self.grants, &digest) {
            Some(i) => i,
            None => {
                proof {
                    assert(key_index(self.grants@, digest@) is None);
                }
                return Err(RemoteAccessError::authentication_failed());
            },
        };
        proof {
            lemma_key_index(self.grants@, i as int);
        }
        let grant = &self.grants[i].1;
        if let Some(expires_at_ms) = grant.expires_at_ms {
            if now_ms >= expires_at_ms {
                return Err(RemoteAccessError::authentication_failed());
            }
        }
        let mut agent_ids: Vec<String> = Vec::new();
        let mut k: usize = 0;
        while k < grant.agent_ids.len()
            invariant
                k <= grant.agent_ids@.len(),
                agent_ids@.len() == k,
                forall|m: int| 0 <= m < k ==> (#[trigger] agent_ids@[m]) == grant.agent_ids@[m],
            decreases grant.agent_ids@.len() - k,
        {
            agent_ids.push(grant.agent_ids[k].clone());
            k = k + 1;
        }
        Ok(AuthenticatedPrincipal { principal_id: grant.principal_id.clone(), agent_ids })
    }
}

impl CredentialVerifier for StaticCredentialVerifier {
    fn authenticate(&self, credential: &str, now_ms: i64) -> (r: Result<
        AuthenticatedPrincipal,
        RemoteAccessError,
    >)
        ensures
            self.authentication_answer(credential@, now_ms, r),
    {
        self.authenticate_credential(credential, now_ms)
    }
}


/// The correlation record of one dispatched request.
#[derive(Clone, Debug, PartialEq, Eq)]
pub struct HttpRequestCorrelation {
    pub request_id: String,
    pub operation_id: Option<String>,
    pub principal_id: String,
    pub agent_id: Option<String>,
    pub execution_id: Option<String>,
    pub workspace_id: Option<String>,
    pub status: u16,
    pub latency_ms: u64,
}

#[derive(Clone, Copy, Debug, PartialEq, Eq, Structural)]
pub enum HttpDiagnosticOutcome {
    RequestCompleted,
    AuthRejected,
    AuthzRejected,
    RateLimited,
    MalformedRequest,
    ProtocolError,
    RevisionConflict,
    LeaseConflict,
    OperationAccepted,
    OperationCompleted,
    OperationFailed,
    UnknownOutcome,
    CoreUnavailable,
    ServerShutdown,
}

#[derive(Clone, Debug, PartialEq, Eq)]
pub struct HttpDiagnosticEvent {
    pub request_id: Option<String>,
    pub operation_id: Option<String>,
    pub principal_id: Option<String>,
    pub agent_id: Option<String>,
    pub execution_id: Option<String>,
    pub workspace_id: Option<String>,
    pub status: Option<u16>,
    pub outcome: HttpDiagnosticOutcome,
    pub latency_ms: u64,
}

#[derive(Clone, Debug, PartialEq, Eq)]
pub struct HttpMetricsSnapshot {
    pub requests_total: u64,
    pub error_responses: u64,
    pub auth_rejections: u64,
    pub authorization_rejections: u64,
    pub rate_limit_rejections: u64,
    pub payload_rejections: u64,
    pub active_requests: u64,
    pub peak_active_requests: u64,
    pub worker_threads: usize,
    pub handler_panics: u64,
    pub tracked_rate_limit_principals: u64,
    pub peak_tracked_rate_limit_principals: u64,
    pub rate_limit_capacity_rejections: u64,
    pub recent_requests: Vec<HttpRequestCorrelation>,
    pub recent_diagnostics: Vec<HttpDiagnosticEvent>,
}

/// A diagnostic event with no correlation yet.
pub fn diagnostic_event(latency_ms: u64, outcome: HttpDiagnosticOutcome, status: Option<u16>) -> (r:
    HttpDiagnosticEvent)
    ensures
        r.request_id is None && r.operation_id is None && r.principal_id is None && r.agent_id
            is None && r.execution_id is None && r.workspace_id is None,
        r.status == status,
        r.outcome == outcome,
        r.latency_ms == latency_ms,
{
    HttpDiagnosticEvent {
        request_id: None,
        operation_id: None,
        principal_id: None,
        agent_id: None,
        execution_id: None,
        workspace_id: None,
        status,
        outcome,
        latency_ms,
    }
}

fn copy_correlation(c: &HttpRequestCorrelation) -> (r: HttpRequestCorrelation)
    ensures
        r == *c,
{
    HttpRequestCorrelation {
        request_id: c.request_id.clone(),
        operation_id: clone_opt(&c.operation_id),
        principal_id: c.principal_id.clone(),
        agent_id: clone_opt(&c.agent_id),
        execution_id: clone_opt(&c.execution_id),
        workspace_id: clone_opt(&c.workspace_id),
        status: c.status,
        latency_ms: c.latency_ms,
    }
}

fn copy_event(e: &HttpDiagnosticEvent) -> (r: HttpDiagnosticEvent)
    ensures
        r == *e,
{
    HttpDiagnosticEvent {
        request_id: clone_opt(&e.request_id),
        operation_id: clone_opt(&e.operation_id),
        principal_id: clone_opt(&e.principal_id),
        agent_id: clone_opt(&e.agent_id),
        execution_id: clone_opt(&e.execution_id),
        workspace_id: clone_opt(&e.workspace_id),
        status: e.status,
        outcome: e.outcome,
        latency_ms: e.latency_ms,
    }
}

/// Append to a bounded history: when it is full, the oldest entry leaves.
pub open spec fn bounded_push<T>(items: Seq<T>, item: T) -> Seq<T> {
    if items.len() >= HTTP_DIAGNOSTIC_CAPACITY {
        items.drop_first().push(item)
    } else {
        items.push(item)
    }
}

/// `x + 1` as a 64-bit counter that wraps.
pub open spec fn bump(x: u64) -> u64 {
    if x == u64::MAX {
        0
    } else {
        (x + 1) as u64
    }
}

fn bump_counter(x: u64) -> (r: u64)
    ensures
        r == bump(x),
{
    if x == u64::MAX {
        0
    } else {
        x + 1
    }
}

/// The transport's counters and its bounded histories of recent requests
/// and diagnostics.
#[derive(Debug)]
pub struct HttpMetrics {
    pub requests_total: u64,
    pub error_responses: u64,
    pub auth_rejections: u64,
    pub authorization_rejections: u64,
    pub rate_limit_rejections: u64,
    pub payload_rejections: u64,
    pub active_requests: u64,
    pub peak_active_requests: u64,
    pub worker_threads: usize,
    pub handler_panics: u64,
    pub tracked_rate_limit_principals: u64,
    pub peak_tracked_rate_limit_principals: u64,
    pub rate_limit_capacity_rejections: u64,
    pub recent_requests: Vec<HttpRequestCorrelation>,
    pub recent_diagnostics: Vec<HttpDiagnosticEvent>,
}

/// Every counter of `a` equals that of `b`.
pub open spec fn same_counters(a: HttpMetrics, b: HttpMetrics) -> bool {
    &&& a.requests_total == b.requests_total
    &&& a.error_responses == b.error_responses
    &&& a.auth_rejections == b.auth_rejections
    &&& a.authorization_rejections == b.authorization_rejections
    &&& a.rate_limit_rejections == b.rate_limit_rejections
    &&& a.payload_rejections == b.payload_rejections
    &&& a.active_requests == b.active_requests
    &&& a.peak_active_requests == b.peak_active_requests
    &&& a.worker_threads == b.worker_threads
    &&& a.handler_panics == b.handler_panics
    &&& a.tracked_rate_limit_principals == b.tracked_rate_limit_principals
    &&& a.peak_tracked_rate_limit_principals == b.peak_tracked_rate_limit_principals
    &&& a.rate_limit_capacity_rejections == b.rate_limit_capacity_rejections
}

impl HttpMetrics {
    /// The histories hold at most their capacity.
    pub open spec fn bounded(self) -> bool {
        &&& self.recent_requests@.len() <= HTTP_DIAGNOSTIC_CAPACITY
        &&& self.recent_diagnostics@.len() <= HTTP_DIAGNOSTIC_CAPACITY
    }

    pub fn new(worker_threads: usize) -> (r: HttpMetrics)
        ensures
            r.worker_threads == worker_threads,
            r.requests_total == 0 && r.error_responses == 0 && r.auth_rejections == 0
                && r.authorization_rejections == 0 && r.rate_limit_rejections == 0
                && r.payload_rejections == 0 && r.active_requests == 0 && r.peak_active_requests
                == 0 && r.handler_panics == 0 && r.tracked_rate_limit_principals == 0
                && r.peak_tracked_rate_limit_principals == 0 && r.rate_limit_capacity_rejections
                == 0,
            r.recent_requests@.len() == 0,
            r.recent_diagnostics@.len() == 0,
            r.bounded(),
    {
        HttpMetrics {
            requests_total: 0,
            error_responses: 0,
            auth_rejections: 0,
            authorization_rejections: 0,
            rate_limit_rejections: 0,
            payload_rejections: 0,
            active_requests: 0,
            peak_active_requests: 0,
            worker_threads,
            handler_panics: 0,
            tracked_rate_limit_principals: 0,
            peak_tracked_rate_limit_principals: 0,
            rate_limit_capacity_rejections: 0,
            recent_requests: Vec::new(),
            recent_diagnostics: Vec::new(),
        }
    }

    /// A copy of every counter and both histories.
    pub fn snapshot(&self) -> (r: HttpMetricsSnapshot)
        ensures
            r.requests_total == self.requests_total,
            r.error_responses == self.error_responses,
            r.auth_rejections == self.auth_rejections,
            r.authorization_rejections == self.authorization_rejections,
            r.rate_limit_rejections == self.rate_limit_rejections,
            r.payload_rejections == self.payload_rejections,
            r.active_requests == self.active_requests,
            r.peak_active_requests == self.peak_active_requests,
            r.worker_threads == self.worker_threads,
            r.handler_panics == self.handler_panics,
            r.tracked_rate_limit_principals == self.tracked_rate_limit_principals,
            r.peak_tracked_rate_limit_principals == self.peak_tracked_rate_limit_principals,
            r.rate_limit_capacity_rejections == self.rate_limit_capacity_rejections,
            r.recent_requests@ == self.recent_requests@,
            r.recent_diagnostics@ == self.recent_diagnostics@,
    {
        let mut requests: Vec<HttpRequestCorrelation> = Vec::new();
        let mut i: usize = 0;
        while i < self.recent_requests.len()
            invariant
                i <= self.recent_requests@.len(),
                requests@ == self.recent_requests@.take(i as int),
            decreases self.recent_requests@.len() - i,
        {
            requests.push(copy_correlation(&self.recent_requests[i]));
            i = i + 1;
            assert(requests@ =~= self.recent_requests@.take(i as int));
        }
        assert(self.recent_requests@.take(i as int) =~= self.recent_requests@);
        let mut events: Vec<HttpDiagnosticEvent> = Vec::new();
        let mut j: usize = 0;
        while j < self.recent_diagnostics.len()
            invariant
                j <= self.recent_diagnostics@.len(),
                events@ == self.recent_diagnostics@.take(j as int),
            decreases self.recent_diagnostics@.len() - j,
        {
            events.push(copy_event(&self.recent_diagnostics[j]));
            j = j + 1;
            assert(events@ =~= self.recent_diagnostics@.take(j as int));
        }
        assert(self.recent_diagnostics@.take(j as int) =~= self.recent_diagnostics@);
        HttpMetricsSnapshot {
            requests_total: self.requests_total,
            error_responses: self.error_responses,
            auth_rejections: self.auth_rejections,
            authorization_rejections: self.authorization_rejections,
            rate_limit_rejections: self.rate_limit_rejections,
            payload_rejections: self.payload_rejections,
            active_requests: self.active_requests,
            peak_active_requests: self.peak_active_requests,
            worker_threads: self.worker_threads,
            handler_panics: self.handler_panics,
            tracked_rate_limit_principals: self.tracked_rate_limit_principals,
            peak_tracked_rate_limit_principals: self.peak_tracked_rate_limit_principals,
            rate_limit_capacity_rejections: self.rate_limit_capacity_rejections,
            recent_requests: requests,
            recent_diagnostics: events,
        }
    }

    /// Keep a request's correlation; the oldest leaves a full history.
    pub fn record(&mut self, correlation: HttpRequestCorrelation)
        ensures
            final(self).recent_requests@ == bounded_push(old(self).recent_requests@, correlation),
            final(self).recent_diagnostics@ == old(self).recent_diagnostics@,
            old(self).bounded() ==> final(self).bounded(),
            same_counters(*final(self), *old(self)),
    {
        if self.recent_requests.len() >= HTTP_DIAGNOSTIC_CAPACITY {
            self.recent_requests.remove(0);
        }
        self.recent_requests.push(correlation);
    }

    /// Keep a diagnostic event; the oldest leaves a full history.
    pub fn record_diagnostic(&mut self, event: HttpDiagnosticEvent)
        ensures
            final(self).recent_diagnostics@ == bounded_push(old(self).recent_diagnostics@, event),
            final(self).recent_requests@ == old(self).recent_requests@,
            old(self).bounded() ==> final(self).bounded(),
            same_counters(*final(self), *old(self)),
    {
        if self.recent_diagnostics.len() >= HTTP_DIAGNOSTIC_CAPACITY {
            self.recent_diagnostics.remove(0);
        }
        self.recent_diagnostics.push(event);
    }

    /// Record the rate limiter's size after a decision, with its peak and
    /// the capacity refusals.
    pub fn rate_limiter_size(&mut self, principal_count: usize, capacity_rejected: bool)
        ensures
            final(self).tracked_rate_limit_principals == principal_count as u64,
            final(self).peak_tracked_rate_limit_principals == if principal_count as u64 > old(
                self,
            ).peak_tracked_rate_limit_principals {
                principal_count as u64
            } else {
                old(self).peak_tracked_rate_limit_principals
            },
            final(self).rate_limit_capacity_rejections == if capacity_rejected {
                bump(old(self).rate_limit_capacity_rejections)
            } else {
                old(self).rate_limit_capacity_rejections
            },
            final(self).recent_requests@ == old(self).recent_requests@,
            final(self).recent_diagnostics@ == old(self).recent_diagnostics@,
            final(self).requests_total == old(self).requests_total,
            final(self).error_responses == old(self).error_responses,
            final(self).auth_rejections == old(self).auth_rejections,
            final(self).authorization_rejections == old(self).authorization_rejections,
            final(self).rate_limit_rejections == old(self).rate_limit_rejections,
            final(self).payload_rejections == old(self).payload_rejections,
            final(self).active_requests == old(self).active_requests,
            final(self).peak_active_requests == old(self).peak_active_requests,
            final(self).worker_threads == old(self).worker_threads,
            final(self).handler_panics == old(self).handler_panics,
    {
        let principal_count = principal_count as u64;
        self.tracked_rate_limit_principals = principal_count;
        if principal_count > self.peak_tracked_rate_limit_principals {
            self.peak_tracked_rate_limit_principals = principal_count;
        }
        if capacity_rejected {
            self.rate_limit_capacity_rejections = bump_counter(self.rate_limit_capacity_rejections);
        }
    }

    /// Count a request as started and active, and keep the peak.
    pub fn request_started(&mut self)
        ensures
            final(self).requests_total == bump(old(self).requests_total),
            final(self).active_requests == bump(old(self).active_requests),
            final(self).peak_active_requests == if bump(old(self).active_requests) > old(
                self,
            ).peak_active_requests {
                bump(old(self).active_requests)
            } else {
                old(self).peak_active_requests
            },
            final(self).recent_requests@ == old(self).recent_requests@,
            final(self).recent_diagnostics@ == old(self).recent_diagnostics@,
    {
        self.requests_total = bump_counter(self.requests_total);
        let active = bump_counter(self.active_requests);
        self.active_requests = active;
        if active > self.peak_active_requests {
            self.peak_active_requests = active;
        }
    }

    /// A request is no longer active.
    pub fn request_finished(&mut self)
        ensures
            final(self).active_requests == if old(self).active_requests == 0 {
                u64::MAX
            } else {
                (old(self).active_requests - 1) as u64
            },
            final(self).recent_requests@ == old(self).recent_requests@,
            final(self).recent_diagnostics@ == old(self).recent_diagnostics@,
    {
        self.active_requests = if self.active_requests == 0 {
            u64::MAX
        } else {
            self.active_requests - 1
        };
    }

    /// Count an error response.
    pub fn mark_error(&mut self)
        ensures
            final(self).error_responses == bump(old(self).error_responses),
            final(self).recent_requests@ == old(self).recent_requests@,
            final(self).recent_diagnostics@ == old(self).recent_diagnostics@,
    {
        self.error_responses = bump_counter(self.error_responses);
    }
}

/// The HTTP status a protocol response is sent with.
pub open spec fn protocol_status_code(response: ProtocolResponse) -> u16 {
    if response.status == ProtocolStatus::Success {
        200
    } else {
        match response.error {
            Some(e) => match e.code {
                ProtocolErrorCode::Unauthorized => 401,
                ProtocolErrorCode::Forbidden => 403,
                ProtocolErrorCode::NotFound => 404,
                ProtocolErrorCode::Conflict | ProtocolErrorCode::LeaseConflict
                | ProtocolErrorCode::RevisionConflict | ProtocolErrorCode::InvalidState
                | ProtocolErrorCode::IdempotencyConflict | ProtocolErrorCode::RecoveryRequired => 409,
                ProtocolErrorCode::ResourceExhausted => 429,
                ProtocolErrorCode::NotSupported => 501,
                ProtocolErrorCode::InternalError | ProtocolErrorCode::IntegrityError => 500,
                _ => 400,
            },
            None => 400,
        }
    }
}

pub fn protocol_http_status(response: &ProtocolResponse) -> (r: u16)
    ensures
        r == protocol_status_code(*response),
{
    if response.status == ProtocolStatus::Success {
        return 200;
    }
    match &response.error {
        Some(e) => match e.code {
            ProtocolErrorCode::Unauthorized => 401,
            ProtocolErrorCode::Forbidden => 403,
            ProtocolErrorCode::NotFound => 404,
            ProtocolErrorCode::Conflict | ProtocolErrorCode::LeaseConflict
            | ProtocolErrorCode::RevisionConflict | ProtocolErrorCode::InvalidState
            | ProtocolErrorCode::IdempotencyConflict | ProtocolErrorCode::RecoveryRequired => 409,
            ProtocolErrorCode::ResourceExhausted => 429,
            ProtocolErrorCode::NotSupported => 501,
            ProtocolErrorCode::InternalError | ProtocolErrorCode::IntegrityError => 500,
            _ => 400,
        },
        None => 400,
    }
}

/// A failed response is sent with the status its error code stands for:
/// an unauthenticated caller 401, a forbidden call 403, a missing entity
/// 404, every kind of conflict or wrong state 409, exhaustion 429, an
/// unsupported call 501, an internal or integrity fault 500, and a bad
/// request (or a failure without an error) 400.
pub proof fn lemma_failure_status_follows_error_code(response: ProtocolResponse)
    requires
        response.status != ProtocolStatus::Success,
    ensures
        response.error is None ==> protocol_status_code(response) == 400,
        response.error matches Some(e) ==> {
            let status = protocol_status_code(response);
            &&& e.code == ProtocolErrorCode::Unauthorized ==> status == 401
            &&& e.code == ProtocolErrorCode::Forbidden ==> status == 403
            &&& e.code == ProtocolErrorCode::NotFound ==> status == 404
            &&& (e.code == ProtocolErrorCode::Conflict || e.code == ProtocolErrorCode::LeaseConflict
                || e.code == ProtocolErrorCode::RevisionConflict || e.code
                == ProtocolErrorCode::InvalidState || e.code == ProtocolErrorCode::IdempotencyConflict
                || e.code == ProtocolErrorCode::RecoveryRequired) ==> status == 409
            &&& e.code == ProtocolErrorCode::ResourceExhausted ==> status == 429
            &&& e.code == ProtocolErrorCode::NotSupported ==> status == 501
            &&& (e.code == ProtocolErrorCode::InternalError || e.code
                == ProtocolErrorCode::IntegrityError) ==> status == 500
            &&& (e.code == ProtocolErrorCode::ValidationError || e.code
                == ProtocolErrorCode::UnsupportedVersion) ==> status == 400
        },
{
}

/// Only a successful protocol response is sent as a success: a failure is
/// always sent with a client or server error status.
pub proof fn lemma_failures_are_never_sent_as_success(response: ProtocolResponse)
    ensures
        response.status == ProtocolStatus::Success ==> protocol_status_code(response) == 200,
        response.status != ProtocolStatus::Success ==> 400 <= protocol_status_code(response) < 600,
{
}

/// The HTTP status a remote access refusal is sent with.
pub open spec fn remote_status_code(code: RemoteAccessErrorCode) -> u16 {
    match code {
        RemoteAccessErrorCode::AuthenticationRequired | RemoteAccessErrorCode::AuthenticationFailed
        | RemoteAccessErrorCode::SessionExpired => 401,
        RemoteAccessErrorCode::InvalidPrincipal | RemoteAccessErrorCode::InvalidAgentBinding => 400,
        RemoteAccessErrorCode::Forbidden => 403,
        RemoteAccessErrorCode::CoreUnavailable => 503,
    }
}

/// A remote access refusal is sent with the status of its kind: a missing,
/// failed or expired authentication 401, an invalid Principal or Agent
/// binding 400, a forbidden call 403, and an unavailable core 503.
pub proof fn lemma_refusal_status_follows_its_kind(code: RemoteAccessErrorCode)
    ensures
        (code == RemoteAccessErrorCode::AuthenticationRequired || code
            == RemoteAccessErrorCode::AuthenticationFailed || code
            == RemoteAccessErrorCode::SessionExpired) ==> remote_status_code(code) == 401,
        (code == RemoteAccessErrorCode::InvalidPrincipal || code
            == RemoteAccessErrorCode::InvalidAgentBinding) ==> remote_status_code(code) == 400,
        code == RemoteAccessErrorCode::Forbidden ==> remote_status_code(code) == 403,
        code == RemoteAccessErrorCode::CoreUnavailable ==> remote_status_code(code) == 503,
{
}

/// Every remote access refusal is sent with a client or server error
/// status.
pub proof fn lemma_refusals_are_errors(code: RemoteAccessErrorCode)
    ensures
        400 <= remote_status_code(code) < 600,
{
}

pub fn remote_error_status(error: &RemoteAccessError) -> (r: u16)
    ensures
        r == remote_status_code(error.code),
{
    match error.code {
        RemoteAccessErrorCode::AuthenticationRequired | RemoteAccessErrorCode::AuthenticationFailed
        | RemoteAccessErrorCode::SessionExpired => 401,
        RemoteAccessErrorCode::InvalidPrincipal | RemoteAccessErrorCode::InvalidAgentBinding => 400,
        RemoteAccessErrorCode::Forbidden => 403,
        RemoteAccessErrorCode::CoreUnavailable => 503,
    }
}

/// The diagnostic outcome of a delivered protocol response.
pub open spec fn diagnostic_outcome(response: ProtocolResponse) -> HttpDiagnosticOutcome {
    match response.error {
        Some(e) => match e.code {
            ProtocolErrorCode::RevisionConflict => HttpDiagnosticOutcome::RevisionConflict,
            ProtocolErrorCode::LeaseConflict => HttpDiagnosticOutcome::LeaseConflict,
            ProtocolErrorCode::RecoveryRequired => HttpDiagnosticOutcome::UnknownOutcome,
            _ => HttpDiagnosticOutcome::ProtocolError,
        },
        None => match response.result {
            Some(ProtocolResult::Operation(o)) => if o.state@ == "running"@ {
                HttpDiagnosticOutcome::OperationAccepted
            } else if o.state@ == "completed"@ {
                HttpDiagnosticOutcome::OperationCompleted
            } else if o.state@ == "failed"@ || o.state@ == "cancelled"@ {
                HttpDiagnosticOutcome::OperationFailed
            } else {
                HttpDiagnosticOutcome::RequestCompleted
            },
            _ => HttpDiagnosticOutcome::RequestCompleted,
        },
    }
}

/// How a delivered response is recorded: a revision or lease conflict as
/// such, a response whose effect needs recovery as of unknown outcome,
/// any other failure as a protocol error; a success that reports an
/// Operation as accepted while it runs, completed, or failed when it
/// failed or was cancelled; any other success as a completed request.
pub proof fn lemma_diagnostic_outcome_follows_the_response(response: ProtocolResponse)
    ensures
        response.error matches Some(e) ==> {
            let o = diagnostic_outcome(response);
            &&& e.code == ProtocolErrorCode::RevisionConflict ==> o
                == HttpDiagnosticOutcome::RevisionConflict
            &&& e.code == ProtocolErrorCode::LeaseConflict ==> o == HttpDiagnosticOutcome::LeaseConflict
            &&& e.code == ProtocolErrorCode::RecoveryRequired ==> o
                == HttpDiagnosticOutcome::UnknownOutcome
            &&& (e.code != ProtocolErrorCode::RevisionConflict && e.code
                != ProtocolErrorCode::LeaseConflict && e.code != ProtocolErrorCode::RecoveryRequired)
                ==> o == HttpDiagnosticOutcome::ProtocolError
        },
        response.error is None ==> (response.result matches Some(ProtocolResult::Operation(op)) ==> {
            let o = diagnostic_outcome(response);
            &&& op.state@ == "running"@ ==> o == HttpDiagnosticOutcome::OperationAccepted
            &&& op.state@ == "completed"@ ==> o == HttpDiagnosticOutcome::OperationCompleted
            &&& (op.state@ == "failed"@ || op.state@ == "cancelled"@) ==> o
                == HttpDiagnosticOutcome::OperationFailed
        }),
        (response.error is None && !(response.result matches Some(ProtocolResult::Operation(_))))
            ==> diagnostic_outcome(response) == HttpDiagnosticOutcome::RequestCompleted,
{
    reveal_strlit("running");
    reveal_strlit("completed");
    reveal_strlit("failed");
    reveal_strlit("cancelled");
    assert("running"@.len() != "completed"@.len() && "running"@.len() != "failed"@.len()
        && "running"@.len() != "cancelled"@.len());
    assert("completed"@.len() != "failed"@.len() && "completed"@[1] != "cancelled"@[1]);
}

pub fn protocol_diagnostic_outcome(response: &ProtocolResponse) -> (r: HttpDiagnosticOutcome)
    ensures
        r == diagnostic_outcome(*response),
{
    if let Some(error) = &response.error {
        return match error.code {
            ProtocolErrorCode::RevisionConflict => HttpDiagnosticOutcome::RevisionConflict,
            ProtocolErrorCode::LeaseConflict => HttpDiagnosticOutcome::LeaseConflict,
            ProtocolErrorCode::RecoveryRequired => HttpDiagnosticOutcome::UnknownOutcome,
            _ => HttpDiagnosticOutcome::ProtocolError,
        };
    }
    match &response.result {
        Some(ProtocolResult::Operation(operation)) => {
            let state = operation.state.as_str();
            if str_equal(state, "running") {
                HttpDiagnosticOutcome::OperationAccepted
            } else if str_equal(state, "completed") {
                HttpDiagnosticOutcome::OperationCompleted
            } else if str_equal(state, "failed") || str_equal(state, "cancelled") {
                HttpDiagnosticOutcome::OperationFailed
            } else {
                HttpDiagnosticOutcome::RequestCompleted
            }
        },
        _ => HttpDiagnosticOutcome::RequestCompleted,
    }
}

/// The Execution and workspace a request names, for correlation: the
/// payload's `execution_id` (or `from_execution_id`), and its
/// `workspace_id` (or its lease's).
pub open spec fn correlation_of(call: ProtocolCall) -> (Option<String>, Option<String>) {
    match call {
        ProtocolCall::CreateWorkspace(c) => (None, Some(c.workspace_id)),
        ProtocolCall::CreateExecution(c) => (Some(c.execution_id), c.workspace_id),
        ProtocolCall::StartExecution(c) => (Some(c.execution_id), None),
        ProtocolCall::PauseExecution(c) => (Some(c.execution_id), None),
        ProtocolCall::CompleteExecution(c) => (Some(c.execution_id), None),
        ProtocolCall::FailExecution(c) => (Some(c.execution_id), None),
        ProtocolCall::InterruptExecution(c) => (Some(c.execution_id), None),
        ProtocolCall::AcquireWorkspaceLease(c) => (Some(c.execution_id), Some(c.workspace_id)),
        ProtocolCall::RenewWorkspaceLease(c) => (None, Some(c.lease.workspace_id)),
        ProtocolCall::ReleaseWorkspaceLease(c) => (None, Some(c.lease.workspace_id)),
        ProtocolCall::PublishVersion(c) => (Some(c.execution_id), Some(c.workspace_id)),
        ProtocolCall::SetExecutionCurrentVersion(c) => (
            Some(c.execution_id),
            Some(c.lease.workspace_id),
        ),
        ProtocolCall::CreateCheckpoint(c) => (Some(c.execution_id), Some(c.workspace_id)),
        ProtocolCall::ResumeFromCheckpoint(c) => (Some(c.execution_id), Some(c.workspace_id)),
        ProtocolCall::CreateHandoff(c) => (Some(c.from_execution_id), None),
        ProtocolCall::MaterializeVersion(c) => (Some(c.execution_id), Some(c.workspace_id)),
        ProtocolCall::StartOperation(c) => (Some(c.execution_id), None),
        ProtocolCall::FinishOperation(c) => (Some(c.execution_id), None),
        ProtocolCall::DiffWorkspaceVersion(c) => (None, Some(c.workspace_id)),
        _ => (None, None),
    }
}

pub fn correlation_resources(request: &ProtocolRequest) -> (r: (Option<String>, Option<String>))
    ensures
        r == correlation_of(request.call),
{
    match &request.call {
        ProtocolCall::CreateWorkspace(c) => (None, Some(c.workspace_id.clone())),
        ProtocolCall::CreateExecution(c) => (
            Some(c.execution_id.clone()),
            clone_opt(&c.workspace_id),
        ),
        ProtocolCall::StartExecution(c) => (Some(c.execution_id.clone()), None),
        ProtocolCall::PauseExecution(c) => (Some(c.execution_id.clone()), None),
        ProtocolCall::CompleteExecution(c) => (Some(c.execution_id.clone()), None),
        ProtocolCall::FailExecution(c) => (Some(c.execution_id.clone()), None),
        ProtocolCall::InterruptExecution(c) => (Some(c.execution_id.clone()), None),
        ProtocolCall::AcquireWorkspaceLease(c) => (
            Some(c.execution_id.clone()),
            Some(c.workspace_id.clone()),
        ),
        ProtocolCall::RenewWorkspaceLease(c) => (None, Some(c.lease.workspace_id.clone())),
        ProtocolCall::ReleaseWorkspaceLease(c) => (None, Some(c.lease.workspace_id.clone())),
        ProtocolCall::PublishVersion(c) => (
            Some(c.execution_id.clone()),
            Some(c.workspace_id.clone()),
        ),
        ProtocolCall::SetExecutionCurrentVersion(c) => (
            Some(c.execution_id.clone()),
            Some(c.lease.workspace_id.clone()),
        ),
        ProtocolCall::CreateCheckpoint(c) => (
            Some(c.execution_id.clone()),
            Some(c.workspace_id.clone()),
        ),
        ProtocolCall::ResumeFromCheckpoint(c) => (
            Some(c.execution_id.clone()),
            Some(c.workspace_id.clone()),
        ),
        ProtocolCall::CreateHandoff(c) => (Some(c.from_execution_id.clone()), None),
        ProtocolCall::MaterializeVersion(c) => (
            Some(c.execution_id.clone()),
            Some(c.workspace_id.clone()),
        ),
        ProtocolCall::StartOperation(c) => (Some(c.execution_id.clone()), None),
        ProtocolCall::FinishOperation(c) => (Some(c.execution_id.clone()), None),
        ProtocolCall::DiffWorkspaceVersion(c) => (None, Some(c.workspace_id.clone())),
        _ => (None, None),
    }
}

/// ASCII case-insensitive equality, as `eq_ignore_ascii_case`.
pub fn eq_ignore_ascii_case(a: &str, b: &str) -> (r: bool)
    ensures
        r == (lower_seq(a@) == lower_seq(b@)),
{
    let x = chars_of(a);
    let y = chars_of(b);
    if x.len() != y.len() {
        proof {
            assert(lower_seq(a@).len() != lower_seq(b@).len());
        }
        return false;
    }
    let mut i: usize = 0;
    while i < x.len()
        invariant
            x@ == a@,
            y@ == b@,
            x@.len() == y@.len(),
            i <= x@.len(),
            forall|k: int| 0 <= k < i ==> lower(x@[k]) == lower(y@[k]),
        decreases x@.len() - i,
    {
        if crate::text::lower_char(x[i]) != crate::text::lower_char(y[i]) {
            proof {
                assert(lower_seq(a@)[i as int] != lower_seq(b@)[i as int]);
            }
            return false;
        }
        i = i + 1;
    }
    assert(lower_seq(a@) =~= lower_seq(b@));
    true
}

/// The text before the first `;`, as `split(';').next()`.
pub open spec fn before_semicolon(s: Seq<char>) -> Seq<char> {
    if s.contains(';') {
        s.take(s.index_of_first(';')->0)
    } else {
        s
    }
}

/// `s` without leading and trailing white space, as `str::trim`.
pub open spec fn trimmed(s: Seq<char>) -> Seq<char>
    decreases s.len(),
{
    if s.len() > 0 && is_space(s[0]) {
        trimmed(s.drop_first())
    } else if s.len() > 0 && is_space(s.last()) {
        trimmed(s.drop_last())
    } else {
        s
    }
}

pub fn trim_chars(s: &[char]) -> (r: Vec<char>)
    ensures
        r@ == trimmed(s@),
{
    let mut start: usize = 0;
    let mut end: usize = s.len();
    assert(s@.subrange(0, s@.len() as int) =~= s@);
    while start < end && is_space_char(s[start])
        invariant
            start <= end <= s@.len(),
            end == s@.len(),
            trimmed(s@) == trimmed(s@.subrange(start as int, end as int)),
        decreases end - start,
    {
        assert(s@.subrange(start + 1, end as int) =~= s@.subrange(start as int, end as int).drop_first());
        start = start + 1;
    }
    while start < end && is_space_char(s[end - 1])
        invariant
            start <= end <= s@.len(),
            trimmed(s@) == trimmed(s@.subrange(start as int, end as int)),
            start < end ==> !is_space(s@[start as int]),
        decreases end - start,
    {
        assert(s@.subrange(start as int, end - 1) =~= s@.subrange(start as int, end as int).drop_last());
        end = end - 1;
    }
    let mut out: Vec<char> = Vec::new();
    let mut i: usize = start;
    while i < end
        invariant
            start <= i <= end <= s@.len(),
            out@ == s@.subrange(start as int, i as int),
        decreases end - i,
    {
        out.push(s[i]);
        i = i + 1;
        assert(out@ =~= s@.subrange(start as int, i as int));
    }
    out
}

/// Whether a header is a JSON content type: its media type, before any
/// parameters and trimmed, is `application/json` in any ASCII case.
pub open spec fn json_content_type(name: Seq<char>, value: Seq<char>) -> bool {
    &&& lower_seq(name) == lower_seq("Content-Type"@)
    &&& lower_seq(trimmed(before_semicolon(value))) == lower_seq("application/json"@)
}

/// A JSON body is recognized whatever the ASCII case of the header name
/// and of the media type.
pub proof fn lemma_json_content_type_ignores_case(name: Seq<char>, value: Seq<char>)
    requires
        same_ignoring_ascii_case(name, "Content-Type"@),
        same_ignoring_ascii_case(trimmed(before_semicolon(value)), "application/json"@),
    ensures
        json_content_type(name, value),
{
    lemma_lower_seq_ignores_case(name, "Content-Type"@);
    lemma_lower_seq_ignores_case(trimmed(before_semicolon(value)), "application/json"@);
}

fn media_type_of(value: &str) -> (r: Vec<char>)
    ensures
        r@ == trimmed(before_semicolon(value@)),
{
    let chars = chars_of(value);
    let mut i: usize = 0;
    while i < chars.len() && chars[i] != ';'
        invariant
            chars@ == value@,
            i <= chars@.len(),
            forall|k: int| 0 <= k < i ==> chars@[k] != ';',
        decreases chars@.len() - i,
    {
        i = i + 1;
    }
    let mut head: Vec<char> = Vec::new();
    let mut k: usize = 0;
    while k < i
        invariant
            chars@ == value@,
            k <= i <= chars@.len(),
            head@ == chars@.take(k as int),
        decreases i - k,
    {
        head.push(chars[k]);
        k = k + 1;
        assert(head@ =~= chars@.take(k as int));
    }
    proof {
        if value@.contains(';') {
            let f = value@.index_of_first(';');
            value@.index_of_first_ensures(';');
            assert(i < chars@.len() && chars@[i as int] == ';');
            assert(f->0 == i);
        } else {
            if i < chars@.len() {
                assert(value@[i as int] == ';');
            }
            assert(chars@.take(i as int) =~= value@);
        }
    }
    trim_chars(head.as_slice())
}

/// Whether any header says the body is JSON.
pub fn has_json_content_type(headers: &Vec<(String, String)>) -> (r: bool)
    ensures
        r == exists|i: int|
            0 <= i < headers@.len() && json_content_type(
                (#[trigger] headers@[i]).0@,
                headers@[i].1@,
            ),
{
    let mut i: usize = 0;
    while i < headers.len()
        invariant
            i <= headers@.len(),
            forall|k: int|
                0 <= k < i ==> !json_content_type(
                    (#[trigger] headers@[k]).0@,
                    headers@[k].1@,
                ),
        decreases headers@.len() - i,
    {
        let media = media_type_of(headers[i].1.as_str());
        let media_text = string_from_chars(media.as_slice());
        if eq_ignore_ascii_case(headers[i].0.as_str(), "Content-Type") && eq_ignore_ascii_case(
            media_text.as_str(),
            "application/json",
        ) {
            assert(json_content_type(headers@[i as int].0@, headers@[i as int].1@));
            return true;
        }
        i = i + 1;
    }
    false
}



/// The values of the `Authorization` headers, in order.
pub open spec fn authorization_values(headers: Seq<(String, String)>) -> Seq<(String, String)> {
    headers.filter(
        |h: (String, String)| lower_seq(h.0@) == lower_seq("Authorization"@),
    )
}

/// `value.split_once(' ')`.
pub open spec fn split_at_space(value: Seq<char>) -> Option<(Seq<char>, Seq<char>)> {
    if value.contains(' ') {
        let i = value.index_of_first(' ')->0;
        Some((value.take(i), value.skip(i + 1)))
    } else {
        None
    }
}

/// The credential of a well-formed bearer value.
pub open spec fn bearer_of(value: Seq<char>) -> Option<Seq<char>> {
    match split_at_space(value) {
        Some((scheme, credential)) => if lower_seq(scheme) == lower_seq("Bearer"@) && !is_blank(
            credential,
        ) && !has_space(credential) {
            Some(credential)
        } else {
            None
        },
        None => None,
    }
}

/// A bearer credential is read whatever the ASCII case of its scheme: a
/// value made of the scheme `Bearer` in any case, one space and a
/// credential without blanks yields that credential.
pub proof fn lemma_bearer_scheme_ignores_case(scheme: Seq<char>, credential: Seq<char>)
    requires
        same_ignoring_ascii_case(scheme, "Bearer"@),
        !is_blank(credential),
        !has_space(credential),
    ensures
        bearer_of(scheme + seq![' '] + credential) == Some(credential),
{
    reveal_strlit("Bearer");
    let value = scheme + seq![' '] + credential;
    assert(value[scheme.len() as int] == ' ');
    assert(value.contains(' '));
    value.index_of_first_ensures(' ');
    let i = value.index_of_first(' ')->0;
    if i < scheme.len() {
        assert(value[i] == scheme[i]);
        assert(scheme[i] == ' ');
        assert(false);
    }
    assert(value.take(i) =~= scheme);
    assert(value.skip(i + 1) =~= credential);
    lemma_lower_seq_ignores_case(scheme, "Bearer"@);
}

fn split_once_space(value: &str) -> (r: Option<(String, String)>)
    ensures
        match split_at_space(value@) {
            Some((a, b)) => r matches Some((x, y)) && x@ == a && y@ == b,
            None => r is None,
        },
{
    let chars = chars_of(value);
    let mut i: usize = 0;
    while i < chars.len() && chars[i] != ' '
        invariant
            chars@ == value@,
            i <= chars@.len(),
            forall|k: int| 0 <= k < i ==> chars@[k] != ' ',
        decreases chars@.len() - i,
    {
        i = i + 1;
    }
    if i == chars.len() {
        proof {
            if value@.contains(' ') {
                let k = choose|k: int| 0 <= k < value@.len() && value@[k] == ' ';
                assert(chars@[k] == ' ');
            }
        }
        return None;
    }
    proof {
        value@.index_of_first_ensures(' ');
        assert(value@.contains(' ')) by {
            assert(value@[i as int] == ' ');
        }
        let f = value@.index_of_first(' ')->0;
        assert(f == i);
    }
    let mut head: Vec<char> = Vec::new();
    let mut k: usize = 0;
    while k < i
        invariant
            chars@ == value@,
            k <= i < chars@.len(),
            head@ == chars@.take(k as int),
        decreases i - k,
    {
        head.push(chars[k]);
        k = k + 1;
        assert(head@ =~= chars@.take(k as int));
    }
    let mut tail: Vec<char> = Vec::new();
    let mut m: usize = i + 1;
    while m < chars.len()
        invariant
            chars@ == value@,
            i < chars@.len(),
            i + 1 <= m <= chars@.len(),
            tail@ == chars@.subrange(i + 1, m as int),
        decreases chars@.len() - m,
    {
        tail.push(chars[m]);
        m = m + 1;
        assert(tail@ =~= chars@.subrange(i + 1, m as int));
    }
    assert(tail@ =~= chars@.skip(i + 1));
    Some((string_from_chars(head.as_slice()), string_from_chars(tail.as_slice())))
}

/// The bearer credential a request presents: exactly one `Authorization`
/// header, of the `Bearer` scheme in any case, with a credential free of
/// white space. No header asks for authentication; anything else fails it.
pub fn bearer_credential(headers: &Vec<(String, String)>) -> (r: Result<String, RemoteAccessError>)
    ensures
        authorization_values(headers@).len() == 0 ==> (r matches Err(e) && access_error(
            e,
            RemoteAccessErrorCode::AuthenticationRequired,
            "caller authentication is required"@,
            false,
        )),
        authorization_values(headers@).len() > 1 ==> (r matches Err(e) && access_error(
            e,
            RemoteAccessErrorCode::AuthenticationFailed,
            "caller authentication failed"@,
            false,
        )),
        authorization_values(headers@).len() == 1 ==> match bearer_of(
            authorization_values(headers@)[0].1@,
        ) {
            Some(c) => r matches Ok(s) && s@ == c,
            None => r matches Err(e) && access_error(
                e,
                RemoteAccessErrorCode::AuthenticationFailed,
                "caller authentication failed"@,
                false,
            ),
        },
{
    let mut found: Option<usize> = None;
    let mut count: usize = 0;
    let mut i: usize = 0;
    while i < headers.len()
        invariant
            i <= headers@.len(),
            count as int == authorization_values(headers@.take(i as int)).len(),
            count <= i,
            count == 0 <==> found is None,
            found matches Some(k) ==> k < i && headers@[k as int] == authorization_values(
                headers@.take(i as int),
            )[0],
        decreases headers@.len() - i,
    {
        proof {
            let t = headers@.take(i as int);
            assert(headers@.take(i + 1) =~= t.push(headers@[i as int]));
            t.lemma_filter_push(
                headers@[i as int],
                |h: (String, String)| lower_seq(h.0@) == lower_seq("Authorization"@),
            );
        }
        if eq_ignore_ascii_case(headers[i].0.as_str(), "Authorization") {
            if found.is_none() {
                found = Some(i);
            }
            count = count + 1;
        }
        i = i + 1;
    }
    assert(headers@.take(headers@.len() as int) =~= headers@);
    let k = match found {
        None => {
            return Err(RemoteAccessError::authentication_required());
        },
        Some(k) => k,
    };
    if count > 1 {
        return Err(RemoteAccessError::authentication_failed());
    }
    let value = headers[k].1.as_str();
    match split_once_space(value) {
        None => Err(RemoteAccessError::authentication_failed()),
        Some((scheme, credential)) => {
            if !eq_ignore_ascii_case(scheme.as_str(), "Bearer") || str_is_blank(credential.as_str())
                || str_has_space(credential.as_str()) {
                return Err(RemoteAccessError::authentication_failed());
            }
            Ok(credential)
        },
    }
}

/// The request id a body that did not decode as a request still names: a
/// non-blank text member `request_id` of a JSON object (the last member of
/// that name, as a JSON map keeps it).
pub open spec fn leftover_request_id(value: Option<JsonValue>) -> Option<Seq<char>> {
    match value {
        Some(JsonValue::Object(entries)) => match last_member(entries@, "request_id"@) {
            Some(JsonValue::String(s)) => if is_blank(s@) {
                None
            } else {
                Some(s@)
            },
            _ => None,
        },
        _ => None,
    }
}

pub fn request_id_from_invalid_json(value: &Option<JsonValue>) -> (r: Option<String>)
    ensures
        match r {
            Some(s) => leftover_request_id(*value) == Some(s@),
            None => leftover_request_id(*value) is None,
        },
{
    let entries = match value {
        Some(JsonValue::Object(entries)) => entries,
        _ => {
            return None;
        },
    };
    let mut j: usize = entries.len();
    assert(entries@.take(j as int) =~= entries@);
    while j > 0
        invariant
            *value == Some(JsonValue::Object(*entries)),
            j <= entries@.len(),
            last_member(entries@.take(j as int), "request_id"@) == last_member(
                entries@,
                "request_id"@,
            ),
        decreases j,
    {
        let ghost t = entries@.take(j as int);
        assert(t.drop_last() =~= entries@.take(j - 1));
        if str_equal(entries[j - 1].0.as_str(), "request_id") {
            proof {
                reveal_strlit("request_id");
            }
            return match &entries[j - 1].1 {
                JsonValue::String(s) => {
                    if str_is_blank(s.as_str()) {
                        None
                    } else {
                        Some(s.clone())
                    }
                },
                _ => None,
            };
        }
        j = j - 1;
    }
    None
}

/// The status and body actually sent for an encoded reply: a body over
/// the response limit is replaced by the fixed too-large body with 500.
pub fn bounded_response(status: u16, data: Vec<u8>, max_response_bytes: usize) -> (r: (u16, Vec<u8>))
    ensures
        data@.len() <= max_response_bytes ==> r.0 == status && r.1@ == data@,
        data@.len() > max_response_bytes ==> r.0 == 500 && r.1@ == encode_utf8(
            RESPONSE_TOO_LARGE_BODY@,
        ),
{
    if data.len() > max_response_bytes {
        (500, vstd::slice::slice_to_vec(RESPONSE_TOO_LARGE_BODY.as_bytes()))
    } else {
        (status, data)
    }
}



/// No response body sent exceeds a response limit that a valid
/// configuration allows: a body over the limit is replaced by the
/// too-large body, which itself fits.
pub proof fn lemma_bounded_response_fits(data: Seq<u8>, max_response_bytes: usize)
    requires
        max_response_bytes >= MIN_HTTP_MAX_RESPONSE_BYTES,
    ensures
        data.len() > max_response_bytes ==> encode_utf8(RESPONSE_TOO_LARGE_BODY@).len()
            <= max_response_bytes,
{
    reveal_strlit(
        "{\"code\":\"RESPONSE_TOO_LARGE\",\"message\":\"HTTP response is too large\",\"retryable\":false}",
    );
    let body = RESPONSE_TOO_LARGE_BODY@;
    assert(vstd::utf8::is_ascii_chars(body));
    vstd::utf8::is_ascii_chars_encode_utf8(body);
}

/// One Principal's current rate window: when it started and how many
/// requests it admitted.
#[derive(Clone, Debug, PartialEq, Eq)]
pub struct RateWindow {
    pub principal_id: String,
    pub window_started_ms: i64,
    pub admitted: usize,
}

/// A rate window as plain values: Principal, start, admitted requests.
pub type WindowView = (Seq<char>, i64, usize);

pub open spec fn window_of(w: RateWindow) -> WindowView {
    (w.principal_id@, w.window_started_ms, w.admitted)
}

/// The outcome of one rate-limit check.
#[derive(Clone, Copy, Debug, PartialEq, Eq, Structural)]
pub struct RateLimitDecision {
    pub allowed: bool,
    pub tracked_principals: usize,
    pub capacity_rejected: bool,
}

/// `a - b` saturated to the `i64` range, as `i64::saturating_sub`.
pub open spec fn saturating_sub(a: i64, b: i64) -> int {
    if a - b > i64::MAX {
        i64::MAX as int
    } else if a - b < i64::MIN {
        i64::MIN as int
    } else {
        a - b
    }
}

fn saturating_sub_i64(a: i64, b: i64) -> (r: i64)
    ensures
        r == saturating_sub(a, b),
{
    if b < 0 {
        if a > i64::MAX + b {
            i64::MAX
        } else {
            a - b
        }
    } else {
        if a < i64::MIN + b {
            i64::MIN
        } else {
            a - b
        }
    }
}

/// The windows still open at `now_ms`.
pub open spec fn live_windows(windows: Seq<WindowView>, now_ms: i64, window_ms: i64) -> Seq<
    WindowView,
> {
    windows.filter(|w: WindowView| saturating_sub(now_ms, w.1) < window_ms)
}

/// The position of the last window of `principal`.
pub open spec fn window_position(windows: Seq<WindowView>, principal: Seq<char>) -> Option<int>
    decreases windows.len(),
{
    if windows.len() == 0 {
        None
    } else if windows.last().0 == principal {
        Some(windows.len() - 1)
    } else {
        window_position(windows.drop_last(), principal)
    }
}

proof fn lemma_window_position(windows: Seq<WindowView>, principal: Seq<char>)
    ensures
        window_position(windows, principal) matches Some(i) ==> 0 <= i < windows.len()
            && windows[i].0 == principal,
        window_position(windows, principal) is None ==> forall|k: int|
            0 <= k < windows.len() ==> (#[trigger] windows[k]).0 != principal,
    decreases windows.len(),
{
    if windows.len() > 0 && windows.last().0 != principal {
        lemma_window_position(windows.drop_last(), principal);
        if window_position(windows, principal) is None {
            assert forall|k: int| 0 <= k < windows.len() implies (#[trigger] windows[k]).0
                != principal by {
                if k < windows.len() - 1 {
                    assert(windows.drop_last()[k] == windows[k]);
                }
            }
        }
    }
}

/// What one check does to the open windows: the windows after it, and its
/// decision.
pub open spec fn rate_step(
    kept: Seq<WindowView>,
    principal: Seq<char>,
    now_ms: i64,
    limit: usize,
    window_ms: i64,
    max_principals: usize,
) -> (Seq<WindowView>, RateLimitDecision) {
    let pos = window_position(kept, principal);
    if pos is None && kept.len() >= max_principals {
        (
            kept,
            RateLimitDecision {
                allowed: false,
                tracked_principals: kept.len() as usize,
                capacity_rejected: true,
            },
        )
    } else {
        let current = match pos {
            Some(i) => kept[i],
            None => (principal, now_ms, 0usize),
        };
        let fresh = if saturating_sub(now_ms, current.1) >= window_ms {
            (current.0, now_ms, 0usize)
        } else {
            current
        };
        let allowed = fresh.2 < limit;
        let next = if allowed {
            (fresh.0, fresh.1, (fresh.2 + 1) as usize)
        } else {
            fresh
        };
        let windows = match pos {
            Some(i) => kept.update(i, next),
            None => kept.push(next),
        };
        (
            windows,
            RateLimitDecision {
                allowed,
                tracked_principals: windows.len() as usize,
                capacity_rejected: false,
            },
        )
    }
}

/// Open windows are within bounds: at most `max_principals` Principals,
/// each tracked once, and no window has admitted more than `limit`
/// requests.
pub open spec fn windows_within(windows: Seq<WindowView>, limit: usize, max_principals: usize) -> bool {
    &&& windows.len() <= max_principals
    &&& forall|i: int| 0 <= i < windows.len() ==> (#[trigger] windows[i]).2 <= limit
    &&& forall|i: int, j: int|
        0 <= i < j < windows.len() ==> (#[trigger] windows[i]).0 != (#[trigger] windows[j]).0
}

proof fn lemma_filter_within(
    windows: Seq<WindowView>,
    pred: spec_fn(WindowView) -> bool,
    limit: usize,
    max_principals: usize,
)
    requires
        windows_within(windows, limit, max_principals),
    ensures
        windows_within(windows.filter(pred), limit, max_principals),
        forall|i: int|
            0 <= i < windows.filter(pred).len() ==> windows.contains(
                #[trigger] windows.filter(pred)[i],
            ),
    decreases windows.len(),
{
    reveal(Seq::filter);
    if windows.len() > 0 {
        let init = windows.drop_last();
        let last = windows.last();
        assert forall|i: int, j: int| 0 <= i < j < init.len() implies (#[trigger] init[i]).0
            != (#[trigger] init[j]).0 by {
            assert(init[i] == windows[i] && init[j] == windows[j]);
        }
        assert forall|i: int| 0 <= i < init.len() implies (#[trigger] init[i]).2 <= limit by {
            assert(init[i] == windows[i]);
        }
        lemma_filter_within(init, pred, limit, max_principals);
        let f = init.filter(pred);
        assert forall|i: int| 0 <= i < f.len() implies windows.contains(#[trigger] f[i]) by {
            let k = choose|k: int| 0 <= k < init.len() && init[k] == f[i];
            assert(windows[k] == f[i]);
        }
        if pred(last) {
            let g = f.push(last);
            assert(g == windows.filter(pred));
            assert forall|i: int| 0 <= i < f.len() implies (#[trigger] f[i]).0 != last.0 by {
                let k = choose|k: int| 0 <= k < init.len() && init[k] == f[i];
                assert(windows[k] == f[i]);
                assert(windows[windows.len() - 1] == last);
            }
            assert forall|i: int, j: int| 0 <= i < j < g.len() implies (#[trigger] g[i]).0
                != (#[trigger] g[j]).0 by {
                if j == g.len() - 1 {
                    assert(g[i] == f[i]);
                } else {
                    assert(g[i] == f[i] && g[j] == f[j]);
                }
            }
            assert forall|i: int| 0 <= i < g.len() implies windows.contains(#[trigger] g[i]) by {
                if i < f.len() {
                    assert(g[i] == f[i]);
                } else {
                    assert(windows[windows.len() - 1] == g[i]);
                }
            }
            assert forall|i: int| 0 <= i < g.len() implies (#[trigger] g[i]).2 <= limit by {
                if i < f.len() {
                    assert(g[i] == f[i]);
                }
            }
            init.lemma_filter_len(pred);
        } else {
            init.lemma_filter_len(pred);
        }
    }
}

/// The rate limiter stays within its bounds: if the open windows are
/// within bounds before a check, they are after it, and the decision
/// reports how many Principals are tracked. So no Principal is admitted
/// more than `limit` times in one window, and no more than
/// `max_principals` Principals are ever tracked.
pub proof fn lemma_rate_step_within_bounds(
    windows: Seq<WindowView>,
    principal: Seq<char>,
    now_ms: i64,
    limit: usize,
    window_ms: i64,
    max_principals: usize,
)
    requires
        windows_within(windows, limit, max_principals),
    ensures
        ({
            let (next, decision) = rate_step(
                live_windows(windows, now_ms, window_ms),
                principal,
                now_ms,
                limit,
                window_ms,
                max_principals,
            );
            &&& windows_within(next, limit, max_principals)
            &&& decision.tracked_principals == next.len()
            &&& decision.allowed ==> window_position(next, principal) is Some
        }),
{
    let pred = |w: WindowView| saturating_sub(now_ms, w.1) < window_ms;
    lemma_filter_within(windows, pred, limit, max_principals);
    let kept = live_windows(windows, now_ms, window_ms);
    assert(kept == windows.filter(pred));
    lemma_window_position(kept, principal);
    let pos = window_position(kept, principal);
    if !(pos is None && kept.len() >= max_principals) {
        let current = match pos {
            Some(i) => kept[i],
            None => (principal, now_ms, 0usize),
        };
        let fresh = if saturating_sub(now_ms, current.1) >= window_ms {
            (current.0, now_ms, 0usize)
        } else {
            current
        };
        let allowed = fresh.2 < limit;
        let next = if allowed {
            (fresh.0, fresh.1, (fresh.2 + 1) as usize)
        } else {
            fresh
        };
        assert(next.0 == principal);
        assert(next.2 <= limit);
        match pos {
            Some(i) => {
                let w = kept.update(i, next);
                assert forall|a: int, b: int| 0 <= a < b < w.len() implies (#[trigger] w[a]).0
                    != (#[trigger] w[b]).0 by {
                    assert(w[a].0 == kept[a].0 && w[b].0 == kept[b].0);
                }
                assert(w[i] == next);
                assert(window_position(w, principal) is Some) by {
                    lemma_window_position(w, principal);
                }
            },
            None => {
                let w = kept.push(next);
                assert forall|a: int, b: int| 0 <= a < b < w.len() implies (#[trigger] w[a]).0
                    != (#[trigger] w[b]).0 by {
                    if b == w.len() - 1 {
                        assert(w[a] == kept[a]);
                    } else {
                        assert(w[a] == kept[a] && w[b] == kept[b]);
                    }
                }
                assert forall|a: int| 0 <= a < w.len() implies (#[trigger] w[a]).2 <= limit by {
                    if a < kept.len() {
                        assert(w[a] == kept[a]);
                    }
                }
                assert(w.last() == next);
            },
        }
    }
}

/// A fixed-window request limit per Principal, over a bounded number of
/// tracked Principals.
#[derive(Debug)]
pub struct RateLimiter {
    limit: usize,
    window_ms: i64,
    max_principals: usize,
    windows: Vec<RateWindow>,
}

impl RateLimiter {
    pub closed spec fn limit_view(self) -> usize {
        self.limit
    }

    pub closed spec fn window_view(self) -> i64 {
        self.window_ms
    }

    pub closed spec fn max_view(self) -> usize {
        self.max_principals
    }

    pub closed spec fn windows_view(self) -> Seq<WindowView> {
        self.windows@.map_values(|w: RateWindow| window_of(w))
    }

    pub fn new(limit: usize, window_ms: i64, max_principals: usize) -> (r: RateLimiter)
        ensures
            r.limit_view() == limit,
            r.window_view() == window_ms,
            r.max_view() == max_principals,
            r.windows_view().len() == 0,
    {
        RateLimiter { limit, window_ms, max_principals, windows: Vec::new() }
    }

    fn position(&self, principal: &str) -> (r: Option<usize>)
        ensures
            match r {
                Some(i) => window_position(self.windows_view(), principal@) == Some(i as int),
                None => window_position(self.windows_view(), principal@) is None,
            },
    {
        let ghost v = self.windows_view();
        let mut j: usize = self.windows.len();
        assert(v.take(j as int) =~= v);
        while j > 0
            invariant
                v == self.windows_view(),
                j <= self.windows@.len(),
                window_position(v.take(j as int), principal@) == window_position(v, principal@),
            decreases j,
        {
            let ghost t = v.take(j as int);
            assert(t.drop_last() =~= v.take(j - 1));
            if str_equal(self.windows[j - 1].principal_id.as_str(), principal) {
                return Some(j - 1);
            }
            j = j - 1;
        }
        None
    }

    /// Admit or refuse one request of `principal` at `now_ms`: windows
    /// that have closed are dropped; an untracked Principal is refused when
    /// the tracked set is full; otherwise its window (restarted when it has
    /// closed) admits the request while it has admitted fewer than the
    /// limit.
    pub fn allow(&mut self, principal: &str, now_ms: i64) -> (r: RateLimitDecision)
        ensures
            (final(self).windows_view(), r) == rate_step(
                live_windows(old(self).windows_view(), now_ms, old(self).window_view()),
                principal@,
                now_ms,
                old(self).limit_view(),
                old(self).window_view(),
                old(self).max_view(),
            ),
            final(self).limit_view() == old(self).limit_view(),
            final(self).window_view() == old(self).window_view(),
            final(self).max_view() == old(self).max_view(),
    {
        let ghost before = self.windows_view();
        let mut kept: Vec<RateWindow> = Vec::new();
        let mut i: usize = 0;
        while i < self.windows.len()
            invariant
                before == self.windows_view(),
                i <= self.windows@.len(),
                kept@.map_values(|w: RateWindow| window_of(w)) == live_windows(
                    before.take(i as int),
                    now_ms,
                    self.window_ms,
                ),
            decreases self.windows@.len() - i,
        {
            let w = &self.windows[i];
            proof {
                let t = before.take(i as int);
                assert(before.take(i + 1) =~= t.push(window_of(*w)));
                t.lemma_filter_push(
                    window_of(*w),
                    |x: WindowView| saturating_sub(now_ms, x.1) < self.window_ms,
                );
            }
            if saturating_sub_i64(now_ms, w.window_started_ms) < self.window_ms {
                let ghost old_kept = kept@;
                kept.push(
                    RateWindow {
                        principal_id: w.principal_id.clone(),
                        window_started_ms: w.window_started_ms,
                        admitted: w.admitted,
                    },
                );
                assert(kept@.map_values(|w: RateWindow| window_of(w)) =~= old_kept.map_values(
                    |w: RateWindow| window_of(w),
                ).push(window_of(*w)));
            }
            i = i + 1;
        }
        assert(before.take(self.windows@.len() as int) =~= before);
        self.windows = kept;
        let ghost kv = self.windows_view();
        let pos = self.position(principal);
        proof {
            lemma_window_position(kv, principal@);
        }
        if pos.is_none() && self.windows.len() >= self.max_principals {
            return RateLimitDecision {
                allowed: false,
                tracked_principals: self.windows.len(),
                capacity_rejected: true,
            };
        }
        let current = match pos {
            Some(i) => RateWindow {
                principal_id: self.windows[i].principal_id.clone(),
                window_started_ms: self.windows[i].window_started_ms,
                admitted: self.windows[i].admitted,
            },
            None => RateWindow {
                principal_id: crate::error::text_of(principal),
                window_started_ms: now_ms,
                admitted: 0,
            },
        };
        let fresh = if saturating_sub_i64(now_ms, current.window_started_ms) >= self.window_ms {
            RateWindow { principal_id: current.principal_id, window_started_ms: now_ms, admitted: 0 }
        } else {
            current
        };
        let allowed = fresh.admitted < self.limit;
        let next = if allowed {
            RateWindow {
                principal_id: fresh.principal_id,
                window_started_ms: fresh.window_started_ms,
                admitted: fresh.admitted + 1,
            }
        } else {
            fresh
        };
        let ghost nv = window_of(next);
        match pos {
            Some(i) => {
                self.windows.set(i, next);
                assert(self.windows_view() =~= kv.update(i as int, nv));
            },
            None => {
                self.windows.push(next);
                assert(self.windows_view() =~= kv.push(nv));
            },
        }
        RateLimitDecision { allowed, tracked_principals: self.windows.len(), capacity_rejected: false }
    }
}



/// Why the transport refused a request before it reached the protocol.
#[derive(Clone, Debug, PartialEq, Eq)]
pub enum TransportRejection {
    /// A transport-level refusal: its HTTP status, stable code and message.
    Transport { status: u16, code: &'static str, message: &'static str },
    /// A refused or missing credential.
    Access(RemoteAccessError),
}

/// The first checks of a request, before any credential is verified: the
/// protocol path, the POST method, a JSON body, and one bearer credential,
/// which is returned.
pub fn admit_request(url: &str, is_post: bool, headers: &Vec<(String, String)>) -> (r: Result<
    String,
    TransportRejection,
>)
    ensures
        url@ != HTTP_PROTOCOL_PATH@ ==> (r matches Err(TransportRejection::Transport { status, code, message })
            && status == 404 && code@ == "NOT_FOUND"@ && message@ == "HTTP endpoint was not found"@),
        url@ == HTTP_PROTOCOL_PATH@ && !is_post ==> (r matches Err(
            TransportRejection::Transport { status, code, message },
        ) && status == 405 && code@ == "METHOD_NOT_ALLOWED"@ && message@
            == "HTTP method is not allowed"@),
        (url@ == HTTP_PROTOCOL_PATH@ && is_post && !(exists|i: int|
            0 <= i < headers@.len() && json_content_type(
                (#[trigger] headers@[i]).0@,
                headers@[i].1@,
            ))) ==> (r matches Err(TransportRejection::Transport { status, code, message })
            && status == 415 && code@ == "UNSUPPORTED_MEDIA_TYPE"@ && message@
            == "application/json is required"@),
        (url@ == HTTP_PROTOCOL_PATH@ && is_post && (exists|i: int|
            0 <= i < headers@.len() && json_content_type(
                (#[trigger] headers@[i]).0@,
                headers@[i].1@,
            ))) ==> match r {
            Ok(credential) => authorization_values(headers@).len() == 1 && bearer_of(
                authorization_values(headers@)[0].1@,
            ) == Some(credential@),
            Err(TransportRejection::Access(e)) => if authorization_values(headers@).len() == 0 {
                access_error(
                    e,
                    RemoteAccessErrorCode::AuthenticationRequired,
                    "caller authentication is required"@,
                    false,
                )
            } else {
                &&& !(authorization_values(headers@).len() == 1 && bearer_of(
                    authorization_values(headers@)[0].1@,
                ) is Some)
                &&& access_error(
                    e,
                    RemoteAccessErrorCode::AuthenticationFailed,
                    "caller authentication failed"@,
                    false,
                )
            },
            Err(_) => false,
        },
{
    if !str_equal(url, HTTP_PROTOCOL_PATH) {
        return Err(
            TransportRejection::Transport {
                status: 404,
                code: "NOT_FOUND",
                message: "HTTP endpoint was not found",
            },
        );
    }
    if !is_post {
        return Err(
            TransportRejection::Transport {
                status: 405,
                code: "METHOD_NOT_ALLOWED",
                message: "HTTP method is not allowed",
            },
        );
    }
    if !has_json_content_type(headers) {
        return Err(
            TransportRejection::Transport {
                status: 415,
                code: "UNSUPPORTED_MEDIA_TYPE",
                message: "application/json is required",
            },
        );
    }
    match bearer_credential(headers) {
        Ok(credential) => Ok(credential),
        Err(e) => Err(TransportRejection::Access(e)),
    }
}

/// `event` is the diagnostic of a refusal: its outcome, status and
/// latency, the Principal when one was authenticated, and no other
/// correlation.
pub open spec fn refusal_event(
    event: HttpDiagnosticEvent,
    outcome: HttpDiagnosticOutcome,
    status: u16,
    latency_ms: u64,
    principal: Option<Seq<char>>,
) -> bool {
    &&& event.outcome == outcome
    &&& event.status == Some(status)
    &&& event.latency_ms == latency_ms
    &&& opt_view(event.principal_id) == principal
    &&& event.request_id is None && event.operation_id is None && event.agent_id is None
    &&& event.execution_id is None && event.workspace_id is None
}

/// The text of an optional string.
pub open spec fn opt_view(value: Option<String>) -> Option<Seq<char>> {
    match value {
        Some(s) => Some(s@),
        None => None,
    }
}

/// `after` is `before` with an error response counted and `event` kept.
pub open spec fn refusal_recorded(after: HttpMetrics, before: HttpMetrics, event: HttpDiagnosticEvent) -> bool {
    &&& after.error_responses == bump(before.error_responses)
    &&& after.recent_diagnostics@ == bounded_push(before.recent_diagnostics@, event)
    &&& after.recent_requests@ == before.recent_requests@
    &&& after.requests_total == before.requests_total
    &&& after.authorization_rejections == before.authorization_rejections
    &&& after.active_requests == before.active_requests
    &&& after.peak_active_requests == before.peak_active_requests
    &&& after.worker_threads == before.worker_threads
    &&& after.handler_panics == before.handler_panics
}

fn refusal_diagnostic(
    metrics: &mut HttpMetrics,
    outcome: HttpDiagnosticOutcome,
    status: u16,
    latency_ms: u64,
    principal: Option<String>,
) -> (e: Ghost<HttpDiagnosticEvent>)
    ensures
        refusal_event(e@, outcome, status, latency_ms, opt_view(principal)),
        refusal_recorded(*final(metrics), *old(metrics), e@),
        final(metrics).auth_rejections == old(metrics).auth_rejections,
        final(metrics).payload_rejections == old(metrics).payload_rejections,
        final(metrics).rate_limit_rejections == old(metrics).rate_limit_rejections,
        final(metrics).tracked_rate_limit_principals == old(metrics).tracked_rate_limit_principals,
        final(metrics).peak_tracked_rate_limit_principals == old(
            metrics,
        ).peak_tracked_rate_limit_principals,
        final(metrics).rate_limit_capacity_rejections == old(
            metrics,
        ).rate_limit_capacity_rejections,
        old(metrics).bounded() ==> final(metrics).bounded(),
{
    metrics.error_responses = bump_counter(metrics.error_responses);
    let mut event = diagnostic_event(latency_ms, outcome, Some(status));
    event.principal_id = principal;
    let ghost e = event;
    let ghost counted = *metrics;
    metrics.record_diagnostic(event);
    assert(refusal_event(e, outcome, status, latency_ms, opt_view(principal)));
    assert(same_counters(*metrics, counted));
    Ghost(e)
}

/// What screening an authenticated request does, from the metrics `m0`
/// and limiter `l0` to `m1` and `l1`, answering `r`: a refused credential,
/// then a declared body over the limit, then a Principal over its rate
/// limit is refused, counted and recorded; otherwise the Principal goes on.
pub open spec fn screening(
    m0: HttpMetrics,
    m1: HttpMetrics,
    l0: RateLimiter,
    l1: RateLimiter,
    authenticated: Result<AuthenticatedPrincipal, RemoteAccessError>,
    declared_length: Option<usize>,
    max_body_bytes: usize,
    now_ms: i64,
    latency_ms: u64,
    r: Result<AuthenticatedPrincipal, TransportRejection>,
) -> bool {
    &&& match authenticated {
        Err(e) => {
            &&& r == Err::<AuthenticatedPrincipal, TransportRejection>(
                TransportRejection::Access(e),
            )
            &&& m1.auth_rejections == bump(m0.auth_rejections)
            &&& exists|ev: HttpDiagnosticEvent|
                refusal_event(ev, HttpDiagnosticOutcome::AuthRejected, 401, latency_ms, None)
                    && refusal_recorded(m1, m0, ev)
            &&& l1.windows_view() == l0.windows_view()
        },
        Ok(p) => if declared_length matches Some(n) && n > max_body_bytes {
            &&& r matches Err(TransportRejection::Transport { status, code, message })
                && status == 413 && code@ == "PAYLOAD_TOO_LARGE"@ && message@
                == "HTTP body is too large"@
            &&& m1.payload_rejections == bump(m0.payload_rejections)
            &&& exists|ev: HttpDiagnosticEvent|
                refusal_event(
                    ev,
                    HttpDiagnosticOutcome::MalformedRequest,
                    413,
                    latency_ms,
                    Some(p.principal_id@),
                ) && refusal_recorded(m1, m0, ev)
            &&& l1.windows_view() == l0.windows_view()
        } else {
            let (windows, decision) = rate_step(
                live_windows(l0.windows_view(), now_ms, l0.window_view()),
                p.principal_id@,
                now_ms,
                l0.limit_view(),
                l0.window_view(),
                l0.max_view(),
            );
            &&& l1.windows_view() == windows
            &&& m1.tracked_rate_limit_principals
                == decision.tracked_principals as u64
            &&& if decision.allowed {
                &&& r == Ok::<AuthenticatedPrincipal, TransportRejection>(p)
                &&& m1.error_responses == m0.error_responses
                &&& m1.recent_diagnostics@ == m0.recent_diagnostics@
            } else {
                &&& r matches Err(TransportRejection::Transport { status, code, message })
                    && status == 429 && code@ == "RATE_LIMITED"@ && message@
                    == "request rate limit exceeded"@
                &&& m1.rate_limit_rejections == bump(
                    m0.rate_limit_rejections,
                )
                &&& exists|ev: HttpDiagnosticEvent|
                    refusal_event(
                        ev,
                        HttpDiagnosticOutcome::RateLimited,
                        429,
                        latency_ms,
                        Some(p.principal_id@),
                    ) && refusal_recorded(m1, m0, ev)
            }
        },
    }
    &&& l1.limit_view() == l0.limit_view()
    &&& l1.window_view() == l0.window_view()
    &&& l1.max_view() == l0.max_view()
}

/// Screen a request whose credential was checked, in the transport's
/// order: a refused credential, then a declared body over the limit, then
/// a Principal over its rate limit is refused, counted and recorded as a
/// diagnostic; otherwise the authenticated Principal goes on. The rate
/// limiter sees only requests whose credential and declared size passed.
pub fn screen_principal(
    metrics: &mut HttpMetrics,
    limiter: &mut RateLimiter,
    authenticated: Result<AuthenticatedPrincipal, RemoteAccessError>,
    declared_length: Option<usize>,
    max_body_bytes: usize,
    now_ms: i64,
    latency_ms: u64,
) -> (r: Result<AuthenticatedPrincipal, TransportRejection>)
    ensures
        old(metrics).bounded() ==> final(metrics).bounded(),
        screening(
            *old(metrics),
            *final(metrics),
            *old(limiter),
            *final(limiter),
            authenticated,
            declared_length,
            max_body_bytes,
            now_ms,
            latency_ms,
            r,
        ),
{
    let principal = match authenticated {
        Err(e) => {
            metrics.auth_rejections = bump_counter(metrics.auth_rejections);
            let ev = refusal_diagnostic(
                metrics,
                HttpDiagnosticOutcome::AuthRejected,
                401,
                latency_ms,
                None,
            );
            assert(refusal_recorded(*metrics, *old(metrics), ev@));
            return Err(TransportRejection::Access(e));
        },
        Ok(p) => p,
    };
    if body_too_large(declared_length, max_body_bytes) {
        metrics.payload_rejections = bump_counter(metrics.payload_rejections);
        let who = Some(principal.principal_id.clone());
        assert(opt_view(who) == Some(principal.principal_id@));
        let ev = refusal_diagnostic(
            metrics,
            HttpDiagnosticOutcome::MalformedRequest,
            413,
            latency_ms,
            who,
        );
        assert(refusal_recorded(*metrics, *old(metrics), ev@));
        return Err(
            TransportRejection::Transport {
                status: 413,
                code: "PAYLOAD_TOO_LARGE",
                message: "HTTP body is too large",
            },
        );
    }
    let decision = limiter.allow(principal.principal_id.as_str(), now_ms);
    metrics.rate_limiter_size(decision.tracked_principals, decision.capacity_rejected);
    if !decision.allowed {
        metrics.rate_limit_rejections = bump_counter(metrics.rate_limit_rejections);
        let who = Some(principal.principal_id.clone());
        assert(opt_view(who) == Some(principal.principal_id@));
        let ev = refusal_diagnostic(
            metrics,
            HttpDiagnosticOutcome::RateLimited,
            429,
            latency_ms,
            who,
        );
        assert(refusal_recorded(*metrics, *old(metrics), ev@));
        return Err(
            TransportRejection::Transport {
                status: 429,
                code: "RATE_LIMITED",
                message: "request rate limit exceeded",
            },
        );
    }
    Ok(principal)
}

/// Whether a Principal and session identity can be bound for `ttl_ms`.
pub open spec fn binding_valid(principal: AuthenticatedPrincipal, session_id: Seq<char>, ttl_ms: i64) -> bool {
    &&& !is_blank(principal.principal_id@)
    &&& !is_blank(session_id)
    &&& principal.agent_ids@.len() > 0
    &&& forall|i: int|
        0 <= i < principal.agent_ids@.len() ==> !is_blank((#[trigger] principal.agent_ids@[i])@)
    &&& ttl_ms > 0
}

/// What authorizing a request on a session of its own answers, on the
/// boundary `b0` it starts from: an invalid binding or lifetime, or a
/// session identity already bound, is refused; otherwise the request is
/// admitted on that session when it is a greeting or its asserted Agent is
/// one of the Principal's, and refused otherwise.
pub open spec fn session_authorization(
    b0: RemoteAccessBoundary,
    principal: AuthenticatedPrincipal,
    session_id: String,
    request: ProtocolRequest,
    now_ms: i64,
    ttl_ms: i64,
    r: Result<AuthorizedProtocolRequest, RemoteAccessError>,
) -> bool {
    if !binding_valid(principal, session_id@, ttl_ms) {
        r matches Err(e) && access_error(
            e,
            RemoteAccessErrorCode::InvalidPrincipal,
            "authenticated Principal or session binding is invalid"@,
            false,
        )
    } else if now_ms + ttl_ms > i64::MAX {
        r matches Err(e) && access_error(
            e,
            RemoteAccessErrorCode::InvalidPrincipal,
            "session lifetime is invalid"@,
            false,
        )
    } else if b0.session_view(session_id@) is Some {
        r matches Err(e) && access_error(
            e,
            RemoteAccessErrorCode::Forbidden,
            "session identity is already bound"@,
            false,
        )
    } else {
        let admitted = r matches Ok(a) && a.request_spec() == request
            && a.session_spec().session_id == session_id && a.session_spec().principal_id
            == principal.principal_id && a.session_spec().established_at_ms == now_ms
            && a.session_spec().expires_at_ms == now_ms + ttl_ms;
        if request.call is Hello {
            admitted
        } else {
            match request.caller_agent_id {
                None => r matches Err(e) && access_error(
                    e,
                    RemoteAccessErrorCode::InvalidAgentBinding,
                    "protocol request has no Principal-bound Agent identity"@,
                    false,
                ),
                Some(agent) => if agent_set(principal.agent_ids@).contains(agent@) {
                    admitted
                } else {
                    r matches Err(e) && access_error(
                        e,
                        RemoteAccessErrorCode::Forbidden,
                        "Principal is not authorized for the asserted Agent"@,
                        false,
                    )
                },
            }
        }
    }
}

/// Authorize one HTTP request on a session of its own: the authenticated
/// Principal is bound to `session_id` for `ttl_ms`, the request is
/// authorized on that session, and the session is ended again. The
/// boundary's sessions are the same afterwards as before, whatever the
/// outcome.
pub fn authorize_in_request_session(
    boundary: &mut RemoteAccessBoundary,
    principal: AuthenticatedPrincipal,
    session_id: String,
    request: ProtocolRequest,
    now_ms: i64,
    ttl_ms: i64,
) -> (r: Result<AuthorizedProtocolRequest, RemoteAccessError>)
    ensures
        forall|id: Seq<char>|
            #[trigger] final(boundary).session_view(id) == old(boundary).session_view(id)
                && final(boundary).agents_view(id) == old(boundary).agents_view(id),
        session_authorization(*old(boundary), principal, session_id, request, now_ms, ttl_ms, r),
{
    let sid = session_id.clone();
    match boundary.bind_authenticated(principal, session_id, now_ms, ttl_ms) {
        Err(e) => Err(e),
        Ok(_) => {
            let authorized = boundary.authorize(sid.as_str(), request, now_ms);
            boundary.disconnect(sid.as_str());
            proof {
                boundary.lemma_unbound_has_no_agents(sid@);
                old(boundary).lemma_unbound_has_no_agents(sid@);
            }
            authorized
        },
    }
}

/// A body is too large when its declared or read length exceeds the limit.
pub fn body_too_large(length: Option<usize>, max_body_bytes: usize) -> (r: bool)
    ensures
        r == (length matches Some(n) && n > max_body_bytes),
{
    match length {
        Some(n) => n > max_body_bytes,
        None => false,
    }
}

/// The identity of the ephemeral session one HTTP request is bound to:
/// `http-`, the host time, `-`, and the request's sequence number.
pub fn session_id_for(now_ms: i64, sequence: u64) -> (r: String)
    ensures
        r@ == "http-"@ + crate::text::signed_decimal(now_ms as int) + "-"@ + crate::text::decimal(
            sequence as nat,
        ),
{
    let mut out = chars_of("http-");
    let time = crate::text::i64_decimal(now_ms);
    crate::canonical::append_chars(&mut out, time.as_slice());
    let dash = chars_of("-");
    crate::canonical::append_chars(&mut out, dash.as_slice());
    let number = crate::text::u64_decimal(sequence);
    crate::canonical::append_chars(&mut out, number.as_slice());
    string_from_chars(out.as_slice())
}



/// The credential check a request's headers lead to: the verifier's answer
/// for its one bearer credential, or the refusal of a missing or malformed
/// credential.
pub open spec fn credential_answer(
    verifier: StaticCredentialVerifier,
    headers: Seq<(String, String)>,
    now_ms: i64,
    a: Result<AuthenticatedPrincipal, RemoteAccessError>,
) -> bool {
    if authorization_values(headers).len() == 0 {
        a matches Err(e) && access_error(
            e,
            RemoteAccessErrorCode::AuthenticationRequired,
            "caller authentication is required"@,
            false,
        )
    } else if authorization_values(headers).len() == 1 && bearer_of(
        authorization_values(headers)[0].1@,
    ) is Some {
        verifier.authentication_answer(
            bearer_of(authorization_values(headers)[0].1@)->0,
            now_ms,
            a,
        )
    } else {
        a matches Err(e) && access_error(
            e,
            RemoteAccessErrorCode::AuthenticationFailed,
            "caller authentication failed"@,
            false,
        )
    }
}

/// A request refused before its credential is looked at: counted as an
/// error and recorded as a malformed request with its status.
pub open spec fn refused_before_credential(
    m0: HttpMetrics,
    m1: HttpMetrics,
    status: u16,
    latency_ms: u64,
) -> bool {
    &&& exists|ev: HttpDiagnosticEvent|
        refusal_event(ev, HttpDiagnosticOutcome::MalformedRequest, status, latency_ms, None)
            && refusal_recorded(m1, m0, ev)
    &&& m1.auth_rejections == m0.auth_rejections
    &&& m1.payload_rejections == m0.payload_rejections
    &&& m1.rate_limit_rejections == m0.rate_limit_rejections
}

/// The transport's screening of one request up to its body, in
/// order: the protocol path (404), POST (405), a JSON body (415),
/// one bearer credential and its verification (401), the declared body
/// size (413) and the Principal's rate limit (429). Each refusal is
/// counted and recorded; an admitted request gives its Principal.
pub fn screen_request(
    metrics: &mut HttpMetrics,
    limiter: &mut RateLimiter,
    verifier: &StaticCredentialVerifier,
    url: &str,
    is_post: bool,
    headers: &Vec<(String, String)>,
    declared_length: Option<usize>,
    max_body_bytes: usize,
    now_ms: i64,
    latency_ms: u64,
) -> (r: Result<AuthenticatedPrincipal, TransportRejection>)
    ensures
        old(metrics).bounded() ==> final(metrics).bounded(),
        url@ != HTTP_PROTOCOL_PATH@ ==> (r matches Err(TransportRejection::Transport { status, code, message })
            && status == 404 && code@ == "NOT_FOUND"@ && message@ == "HTTP endpoint was not found"@
            && refused_before_credential(*old(metrics), *final(metrics), 404, latency_ms)
            && *final(limiter) == *old(limiter)),
        (url@ == HTTP_PROTOCOL_PATH@ && !is_post) ==> (r matches Err(
            TransportRejection::Transport { status, code, message },
        ) && status == 405 && code@ == "METHOD_NOT_ALLOWED"@ && message@
            == "HTTP method is not allowed"@ && refused_before_credential(
            *old(metrics),
            *final(metrics),
            405,
            latency_ms,
        ) && *final(limiter) == *old(limiter)),
        (url@ == HTTP_PROTOCOL_PATH@ && is_post && !(exists|i: int|
            0 <= i < headers@.len() && json_content_type(
                (#[trigger] headers@[i]).0@,
                headers@[i].1@,
            ))) ==> (r matches Err(TransportRejection::Transport { status, code, message })
            && status == 415 && code@ == "UNSUPPORTED_MEDIA_TYPE"@ && message@
            == "application/json is required"@ && refused_before_credential(
            *old(metrics),
            *final(metrics),
            415,
            latency_ms,
        ) && *final(limiter) == *old(limiter)),
        (url@ == HTTP_PROTOCOL_PATH@ && is_post && (exists|i: int|
            0 <= i < headers@.len() && json_content_type(
                (#[trigger] headers@[i]).0@,
                headers@[i].1@,
            ))) ==> exists|a: Result<AuthenticatedPrincipal, RemoteAccessError>|
            #[trigger] credential_answer(*verifier, headers@, now_ms, a) && screening(
                *old(metrics),
                *final(metrics),
                *old(limiter),
                *final(limiter),
                a,
                declared_length,
                max_body_bytes,
                now_ms,
                latency_ms,
                r,
            ),
{
    match admit_request(url, is_post, headers) {
        Err(TransportRejection::Transport { status, code, message }) => {
            let ghost before = *metrics;
            let ev = refusal_diagnostic(
                metrics,
                HttpDiagnosticOutcome::MalformedRequest,
                status,
                latency_ms,
                None,
            );
            assert(refusal_event(ev@, HttpDiagnosticOutcome::MalformedRequest, status, latency_ms, None));
            assert(refused_before_credential(before, *metrics, status, latency_ms));
            Err(TransportRejection::Transport { status, code, message })
        },
        Err(TransportRejection::Access(e)) => {
            let authenticated: Result<AuthenticatedPrincipal, RemoteAccessError> = Err(e);
            assert(credential_answer(*verifier, headers@, now_ms, authenticated));
            screen_principal(
                metrics,
                limiter,
                authenticated,
                declared_length,
                max_body_bytes,
                now_ms,
                latency_ms,
            )
        },
        Ok(credential) => {
            let authenticated = verifier.authenticate_credential(credential.as_str(), now_ms);
            assert(credential_answer(*verifier, headers@, now_ms, authenticated));
            screen_principal(
                metrics,
                limiter,
                authenticated,
                declared_length,
                max_body_bytes,
                now_ms,
                latency_ms,
            )
        },
    }
}


/// What the rest of a screened request comes to.
#[derive(Debug)]
pub enum BodyAdmission {
    /// A transport refusal of the body: unreadable (400) or too large (413).
    Refused(TransportRejection),
    /// A body that is no protocol request: the envelope error to answer.
    InvalidEnvelope(ProtocolResponse),
    /// The Principal may not make this call on the request's session.
    Unauthorized(RemoteAccessError),
    /// The request may be dispatched.
    Authorized(AuthorizedProtocolRequest),
}

/// The diagnostic of a request whose authorization was refused: its
/// status, the request's identities, the Principal, and the Execution and
/// workspace it names.
pub open spec fn authorization_event(
    event: HttpDiagnosticEvent,
    request: ProtocolRequest,
    principal: Seq<char>,
    error: RemoteAccessError,
    latency_ms: u64,
) -> bool {
    &&& event.outcome == HttpDiagnosticOutcome::AuthzRejected
    &&& event.status == Some(remote_status_code(error.code))
    &&& event.latency_ms == latency_ms
    &&& event.request_id == Some(request.request_id)
    &&& event.operation_id == request.operation_id
    &&& opt_view(event.principal_id) == Some(principal)
    &&& event.agent_id == request.caller_agent_id
    &&& (event.execution_id, event.workspace_id) == correlation_of(request.call)
}

/// Whether the Principal can be bound to the request's session.
pub open spec fn session_binds(
    b0: RemoteAccessBoundary,
    principal: AuthenticatedPrincipal,
    session_id: Seq<char>,
    now_ms: i64,
    ttl_ms: i64,
) -> bool {
    binding_valid(principal, session_id, ttl_ms) && now_ms + ttl_ms <= i64::MAX && b0.session_view(
        session_id,
    ) is None
}

/// The answer to a body that is no protocol request: the envelope error
/// under the request id it still names, or `unknown`.
pub open spec fn envelope_refused(r: BodyAdmission, request_id: Option<Seq<char>>) -> bool {
    match r {
        BodyAdmission::InvalidEnvelope(response) => {
            &&& response.request_id@ == match request_id {
                Some(id) => id,
                None => "unknown"@,
            }
            &&& response.status == ProtocolStatus::Error
            &&& response.result is None
            &&& response.operation_id is None
            &&& match response.error {
                Some(e) => e.code == ProtocolErrorCode::ValidationError && e.message@
                    == "request envelope is invalid"@ && !e.retryable && e.details is None,
                None => false,
            }
        },
        _ => false,
    }
}

/// What admitting the body of a screened request does, from the metrics
/// `m0` and boundary `b0`, answering `r`: a body that could not be read is
/// refused with 400 and one over the limit with 413; a body that is no
/// protocol request is answered with the envelope error under the request
/// id it still names; otherwise the request is authorized on a session of
/// its own, and a refusal is counted (and, once the session was bound,
/// recorded with the request's correlation).
pub open spec fn body_admission(
    m0: HttpMetrics,
    m1: HttpMetrics,
    b0: RemoteAccessBoundary,
    principal: AuthenticatedPrincipal,
    body_length: Option<usize>,
    max_body_bytes: usize,
    decoded: Result<ProtocolRequest, Option<JsonValue>>,
    session_id: String,
    now_ms: i64,
    ttl_ms: i64,
    latency_ms: u64,
    r: BodyAdmission,
) -> bool {
    match body_length {
        None => {
            &&& r matches BodyAdmission::Refused(TransportRejection::Transport { status, code, message })
                && status == 400 && code@ == "INVALID_REQUEST"@ && message@
                == "HTTP body could not be read"@
            &&& m1.payload_rejections == m0.payload_rejections
            &&& exists|ev: HttpDiagnosticEvent|
                refusal_event(
                    ev,
                    HttpDiagnosticOutcome::MalformedRequest,
                    400,
                    latency_ms,
                    Some(principal.principal_id@),
                ) && refusal_recorded(m1, m0, ev)
        },
        Some(n) => if n > max_body_bytes {
            &&& r matches BodyAdmission::Refused(TransportRejection::Transport { status, code, message })
                && status == 413 && code@ == "PAYLOAD_TOO_LARGE"@ && message@
                == "HTTP body is too large"@
            &&& m1.payload_rejections == bump(m0.payload_rejections)
            &&& exists|ev: HttpDiagnosticEvent|
                refusal_event(
                    ev,
                    HttpDiagnosticOutcome::MalformedRequest,
                    413,
                    latency_ms,
                    Some(principal.principal_id@),
                ) && refusal_recorded(m1, m0, ev)
        } else {
            match decoded {
                Err(value) => {
                    &&& envelope_refused(r, leftover_request_id(value))
                    &&& m1.error_responses == bump(m0.error_responses)
                    &&& m1.payload_rejections == m0.payload_rejections
                    &&& m1.authorization_rejections == m0.authorization_rejections
                    &&& m1.recent_requests@ == m0.recent_requests@
                    &&& exists|ev: HttpDiagnosticEvent|
                        m1.recent_diagnostics@ == #[trigger] bounded_push(m0.recent_diagnostics@, ev)
                            && ev.outcome == HttpDiagnosticOutcome::MalformedRequest && ev.status
                            == Some(400u16) && opt_view(ev.request_id) == leftover_request_id(value)
                            && opt_view(ev.principal_id) == Some(principal.principal_id@)
                },
                Ok(request) => exists|a: Result<AuthorizedProtocolRequest, RemoteAccessError>|
                    #[trigger] session_authorization(
                        b0,
                        principal,
                        session_id,
                        request,
                        now_ms,
                        ttl_ms,
                        a,
                    ) && match a {
                        Ok(authorized) => r == BodyAdmission::Authorized(authorized) && m1 == m0,
                        Err(error) => {
                            &&& r == BodyAdmission::Unauthorized(error)
                            &&& m1.error_responses == bump(m0.error_responses)
                            &&& m1.authorization_rejections == bump(m0.authorization_rejections)
                            &&& m1.payload_rejections == m0.payload_rejections
                            &&& m1.recent_requests@ == m0.recent_requests@
                            &&& if session_binds(b0, principal, session_id@, now_ms, ttl_ms) {
                                exists|ev: HttpDiagnosticEvent|
                                    m1.recent_diagnostics@ == #[trigger] bounded_push(
                                        m0.recent_diagnostics@,
                                        ev,
                                    ) && authorization_event(
                                        ev,
                                        request,
                                        principal.principal_id@,
                                        error,
                                        latency_ms,
                                    )
                            } else {
                                m1.recent_diagnostics@ == m0.recent_diagnostics@
                            }
                        },
                    },
            }
        },
    }
}

/// Admit the body of a screened request, in order: a body that could not
/// be read (400), a body over the limit (413), a body that is no protocol
/// request (the envelope error), and the request's authorization on an
/// ephemeral session of its own, which is ended again whatever the
/// outcome. `decoded` is the body decoded as a request, or, when it is
/// not one, the JSON value it still is.
pub fn admit_body(
    metrics: &mut HttpMetrics,
    boundary: &mut RemoteAccessBoundary,
    principal: AuthenticatedPrincipal,
    body_length: Option<usize>,
    max_body_bytes: usize,
    decoded: Result<ProtocolRequest, Option<JsonValue>>,
    session_id: String,
    now_ms: i64,
    ttl_ms: i64,
    latency_ms: u64,
) -> (r: BodyAdmission)
    ensures
        old(metrics).bounded() ==> final(metrics).bounded(),
        forall|id: Seq<char>|
            #[trigger] final(boundary).session_view(id) == old(boundary).session_view(id)
                && final(boundary).agents_view(id) == old(boundary).agents_view(id),
        body_admission(
            *old(metrics),
            *final(metrics),
            *old(boundary),
            principal,
            body_length,
            max_body_bytes,
            decoded,
            session_id,
            now_ms,
            ttl_ms,
            latency_ms,
            r,
        ),
{
    let ghost p0 = principal;
    let ghost s0 = session_id;
    let pid = principal.principal_id.clone();
    let length = match body_length {
        None => {
            let ghost before = *metrics;
            let ev = refusal_diagnostic(
                metrics,
                HttpDiagnosticOutcome::MalformedRequest,
                400,
                latency_ms,
                Some(pid),
            );
            assert(refusal_recorded(*metrics, before, ev@));
            return BodyAdmission::Refused(
                TransportRejection::Transport {
                    status: 400,
                    code: "INVALID_REQUEST",
                    message: "HTTP body could not be read",
                },
            );
        },
        Some(n) => n,
    };
    if length > max_body_bytes {
        metrics.payload_rejections = bump_counter(metrics.payload_rejections);
        let ghost before = *metrics;
        let ev = refusal_diagnostic(
            metrics,
            HttpDiagnosticOutcome::MalformedRequest,
            413,
            latency_ms,
            Some(pid),
        );
        assert(refusal_recorded(*metrics, *old(metrics), ev@));
        return BodyAdmission::Refused(
            TransportRejection::Transport {
                status: 413,
                code: "PAYLOAD_TOO_LARGE",
                message: "HTTP body is too large",
            },
        );
    }
    let request = match decoded {
        Err(value) => {
            metrics.error_responses = bump_counter(metrics.error_responses);
            let request_id = request_id_from_invalid_json(&value);
            let mut event = diagnostic_event(
                latency_ms,
                HttpDiagnosticOutcome::MalformedRequest,
                Some(400),
            );
            event.request_id = clone_opt(&request_id);
            event.principal_id = Some(pid);
            let ghost ev = event;
            metrics.record_diagnostic(event);
            assert(metrics.recent_diagnostics@ == bounded_push(old(metrics).recent_diagnostics@, ev));
            return BodyAdmission::InvalidEnvelope(ProtocolResponse::invalid_envelope(request_id));
        },
        Ok(request) => request,
    };
    let request_id = request.request_id.clone();
    let operation_id = clone_opt(&request.operation_id);
    let agent_id = clone_opt(&request.caller_agent_id);
    let (execution_id, workspace_id) = correlation_resources(&request);
    let ghost requested = request;
    let sid = session_id.clone();
    let authorized = match boundary.bind_authenticated(principal, session_id, now_ms, ttl_ms) {
        Err(e) => {
            metrics.error_responses = bump_counter(metrics.error_responses);
            metrics.authorization_rejections = bump_counter(metrics.authorization_rejections);
            assert(session_authorization(
                *old(boundary),
                p0,
                s0,
                requested,
                now_ms,
                ttl_ms,
                Err(e),
            ));
            return BodyAdmission::Unauthorized(e);
        },
        Ok(_) => {
            let authorized = boundary.authorize(sid.as_str(), request, now_ms);
            boundary.disconnect(sid.as_str());
            proof {
                boundary.lemma_unbound_has_no_agents(sid@);
                old(boundary).lemma_unbound_has_no_agents(sid@);
            }
            authorized
        },
    };
    assert(session_authorization(
        *old(boundary),
        p0,
        s0,
        requested,
        now_ms,
        ttl_ms,
        authorized,
    ));
    match authorized {
        Ok(a) => BodyAdmission::Authorized(a),
        Err(error) => {
            metrics.error_responses = bump_counter(metrics.error_responses);
            metrics.authorization_rejections = bump_counter(metrics.authorization_rejections);
            let status = remote_error_status(&error);
            let mut event = diagnostic_event(latency_ms, HttpDiagnosticOutcome::AuthzRejected, Some(status));
            event.request_id = Some(request_id);
            event.operation_id = operation_id;
            event.principal_id = Some(pid);
            event.agent_id = agent_id;
            event.execution_id = execution_id;
            event.workspace_id = workspace_id;
            let ghost ev = event;
            metrics.record_diagnostic(event);
            assert(authorization_event(ev, requested, p0.principal_id@, error, latency_ms));
            assert(metrics.recent_diagnostics@ == bounded_push(old(metrics).recent_diagnostics@, ev));
            BodyAdmission::Unauthorized(error)
        },
    }
}

} // verus!
