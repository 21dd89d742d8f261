//! The rules of the synchronous HTTP client for the external Agent
//! protocol: which configurations and endpoints it accepts, the exact
//! request it sends, how it reads the status and length of a reply, and
//! when a reply counts as a protocol response to the request sent. The
//! socket work belongs to the host.
use crate::canonical::append_chars;
use crate::error::text_of;
use crate::http_transport::{eq_ignore_ascii_case, trimmed, CredentialGrant, HTTP_PROTOCOL_PATH};
use crate::protocol::{ProtocolResponse, EXTERNAL_AGENT_PROTOCOL_VERSION};
use crate::text::{
    chars_of, decimal, has_space, occurs_at, is_blank, lemma_lower_seq_ignores_case, lower_seq, same_ignoring_ascii_case, parse_unsigned, parse_usize, str_equal,
    str_has_space, str_is_blank, string_from_chars, u64_decimal,
};
use vstd::prelude::*;
use vstd::utf8::{decode_utf8, encode_utf8, valid_utf8};

verus! {

broadcast use vstd::string::group_string_axioms;

/// Default limit on a response the client reads.
pub const DEFAULT_REMOTE_HTTP_MAX_RESPONSE_BYTES: usize = 4194304;

/// Default limit on a request body the client sends.
pub const DEFAULT_REMOTE_HTTP_MAX_REQUEST_BYTES: usize = 1048576;

/// Limit on the response header block.
pub const MAX_HTTP_HEADER_BYTES: usize = 65536;

/// A client failure: a stable code, a secret-free message, and the HTTP
/// status when a response was received.
#[derive(Clone, Debug, PartialEq, Eq)]
pub struct RemoteHttpClientError {
    code: &'static str,
    message: &'static str,
    http_status: Option<u16>,
}

impl RemoteHttpClientError {
    pub closed spec fn code_view(self) -> Seq<char> {
        self.code@
    }

    pub closed spec fn message_view(self) -> Seq<char> {
        self.message@
    }

    pub closed spec fn status_view(self) -> Option<u16> {
        self.http_status
    }

    /// `e` is the failure `code`/`message` with no status.
    pub open spec fn is(self, code: Seq<char>, message: Seq<char>) -> bool {
        self.code_view() == code && self.message_view() == message && self.status_view() is None
    }

    pub fn new(code: &'static str, message: &'static str) -> (e: RemoteHttpClientError)
        ensures
            e.is(code@, message@),
    {
        RemoteHttpClientError { code, message, http_status: None }
    }

    pub fn with_http_status(self, http_status: u16) -> (e: RemoteHttpClientError)
        ensures
            e.code_view() == self.code_view(),
            e.message_view() == self.message_view(),
            e.status_view() == Some(http_status),
    {
        RemoteHttpClientError { code: self.code, message: self.message, http_status: Some(http_status) }
    }

    pub fn code(&self) -> (r: &'static str)
        ensures
            r@ == self.code_view(),
    {
        self.code
    }

    pub fn message(&self) -> (r: &'static str)
        ensures
            r@ == self.message_view(),
    {
        self.message
    }

    pub fn http_status(&self) -> (r: Option<u16>)
        ensures
            r == self.status_view(),
    {
        self.http_status
    }
}

/// Client settings. `endpoint` is `host:port` or `http://host:port`.
#[derive(Clone, Debug, PartialEq, Eq)]
pub struct RemoteHttpClientConfig {
    pub endpoint: String,
    pub credential: String,
    /// The connect, read and write timeout, in milliseconds.
    pub timeout_ms: u64,
    pub max_response_bytes: usize,
}

/// Check a client configuration apart from its endpoint: a credential with
/// no white space, a non-zero timeout and response limit.
pub fn check_client_config(config: &RemoteHttpClientConfig) -> (r: Result<(), RemoteHttpClientError>)
    ensures
        (is_blank(config.credential@) || has_space(config.credential@)) ==> (r matches Err(e)
            && e.is("INVALID_CREDENTIAL"@, "credential is invalid"@)),
        !(is_blank(config.credential@) || has_space(config.credential@)) && config.timeout_ms == 0
            ==> (r matches Err(e) && e.is("INVALID_TIMEOUT"@, "client timeout is invalid"@)),
        !(is_blank(config.credential@) || has_space(config.credential@)) && config.timeout_ms != 0
            && config.max_response_bytes == 0 ==> (r matches Err(e) && e.is(
            "INVALID_RESPONSE_LIMIT"@,
            "response limit is invalid"@,
        )),
        r is Ok <==> !is_blank(config.credential@) && !has_space(config.credential@)
            && config.timeout_ms != 0 && config.max_response_bytes != 0,
{
    if str_is_blank(config.credential.as_str()) || str_has_space(config.credential.as_str()) {
        return Err(RemoteHttpClientError::new("INVALID_CREDENTIAL", "credential is invalid"));
    }
    if config.timeout_ms == 0 {
        return Err(RemoteHttpClientError::new("INVALID_TIMEOUT", "client timeout is invalid"));
    }
    if config.max_response_bytes == 0 {
        return Err(RemoteHttpClientError::new("INVALID_RESPONSE_LIMIT", "response limit is invalid"));
    }
    Ok(())
}

/// Whether `c` is an ASCII control character.
pub open spec fn ascii_control(c: char) -> bool {
    (c as u32) < 32 || (c as u32) == 127
}

/// The authority an endpoint names, before it is resolved: the trimmed
/// text without an `http://` prefix.
pub open spec fn endpoint_authority(value: Seq<char>) -> Seq<char> {
    let t = trimmed(value);
    if t.len() >= 7 && t.take(7) == "http://"@ {
        t.skip(7)
    } else {
        t
    }
}

/// An authority that may be resolved: non-empty, with no path, query or
/// control character.
pub open spec fn authority_ok(a: Seq<char>) -> bool {
    &&& a.len() > 0
    &&& !a.contains('/')
    &&& !a.contains('?')
    &&& forall|i: int| 0 <= i < a.len() ==> !ascii_control(#[trigger] a[i])
}

fn starts_with_text(s: &[char], prefix: &str) -> (r: bool)
    ensures
        r == (s@.len() >= prefix@.len() && s@.take(prefix@.len() as int) == prefix@),
{
    let p = chars_of(prefix);
    if s.len() < p.len() {
        return false;
    }
    let mut i: usize = 0;
    while i < p.len()
        invariant
            p@ == prefix@,
            s@.len() >= p@.len(),
            i <= p@.len(),
            forall|k: int| 0 <= k < i ==> s@[k] == p@[k],
        decreases p@.len() - i,
    {
        if s[i] != p[i] {
            assert(s@.take(p@.len() as int)[i as int] != p@[i as int]);
            return false;
        }
        i = i + 1;
    }
    assert(s@.take(p@.len() as int) =~= p@);
    true
}

/// The authority of an endpoint setting, checked; `https://` is refused,
/// since TLS belongs at an external terminator.
pub fn parse_endpoint_authority(value: &str) -> (r: Result<String, RemoteHttpClientError>)
    ensures
        ({
            let t = trimmed(value@);
            &&& (t.len() >= 8 && t.take(8) == "https://"@) ==> (r matches Err(e) && e.is(
                "TLS_NOT_SUPPORTED"@,
                "HTTPS is not supported by this client; use external TLS termination"@,
            ))
            &&& !(t.len() >= 8 && t.take(8) == "https://"@) ==> (if authority_ok(
                endpoint_authority(value@),
            ) {
                r matches Ok(a) && a@ == endpoint_authority(value@)
            } else {
                r matches Err(e) && e.is("INVALID_ENDPOINT"@, "HTTP endpoint is invalid"@)
            })
        }),
{
    let chars = chars_of(value);
    let t = crate::http_transport::trim_chars(chars.as_slice());
    proof {
        reveal_strlit("http://");
        reveal_strlit("https://");
    }
    let authority: Vec<char> = if starts_with_text(t.as_slice(), "http://") {
        let mut a: Vec<char> = Vec::new();
        let mut i: usize = 7;
        while i < t.len()
            invariant
                7 <= i <= t@.len(),
                a@ == t@.subrange(7, i as int),
            decreases t@.len() - i,
        {
            a.push(t[i]);
            i = i + 1;
            assert(a@ =~= t@.subrange(7, i as int));
        }
        assert(a@ =~= t@.skip(7));
        proof {
            if t@.len() >= 8 && t@.take(8) == "https://"@ {
                assert(t@.take(8)[4] == 's');
                assert(t@.take(7)[4] == ':');
            }
        }
        a
    } else if starts_with_text(t.as_slice(), "https://") {
        return Err(
            RemoteHttpClientError::new(
                "TLS_NOT_SUPPORTED",
                "HTTPS is not supported by this client; use external TLS termination",
            ),
        );
    } else {
        t
    };
    let mut ok = authority.len() > 0;
    let mut i: usize = 0;
    while i < authority.len()
        invariant
            i <= authority@.len(),
            ok == (authority@.len() > 0 && forall|k: int|
                0 <= k < i ==> (#[trigger] authority@[k]) != '/' && authority@[k] != '?'
                    && !ascii_control(authority@[k])),
        decreases authority@.len() - i,
    {
        let c = authority[i];
        let u = c as u32;
        if c == '/' || c == '?' || u < 32 || u == 127 {
            ok = false;
        }
        i = i + 1;
    }
    proof {
        let a = authority@;
        if ok {
            assert(!a.contains('/'));
            assert(!a.contains('?'));
        } else if a.len() > 0 {
            let k = choose|k: int|
                0 <= k < a.len() && !((#[trigger] a[k]) != '/' && a[k] != '?' && !ascii_control(
                    a[k],
                ));
            if a[k] == '/' {
                assert(a.contains('/'));
            } else if a[k] == '?' {
                assert(a.contains('?'));
            }
        }
    }
    if !ok {
        return Err(RemoteHttpClientError::new("INVALID_ENDPOINT", "HTTP endpoint is invalid"));
    }
    Ok(string_from_chars(authority.as_slice()))
}

/// The bytes of `s`.
pub open spec fn bytes_of(s: Seq<char>) -> Seq<u8> {
    encode_utf8(s)
}

/// The exact HTTP/1.1 request that carries a JSON body to the protocol
/// endpoint.
pub open spec fn json_request_bytes(host: Seq<char>, credential: Seq<char>, body: Seq<u8>) -> Seq<u8> {
    bytes_of("POST "@) + bytes_of(HTTP_PROTOCOL_PATH@) + bytes_of(" HTTP/1.1\r\nHost: "@) + bytes_of(
        host,
    ) + bytes_of("\r\nAuthorization: Bearer "@) + bytes_of(credential) + bytes_of(
        "\r\nContent-Type: application/json\r\nAccept: application/json\r\nConnection: close\r\nContent-Length: "@,
    ) + bytes_of(decimal(body.len())) + bytes_of("\r\n\r\n"@) + body
}

fn push_bytes(out: &mut Vec<u8>, bytes: &[u8])
    ensures
        final(out)@ == old(out)@ + bytes@,
{
    let mut i: usize = 0;
    while i < bytes.len()
        invariant
            i <= bytes@.len(),
            out@ == old(out)@ + bytes@.take(i as int),
        decreases bytes@.len() - i,
    {
        out.push(bytes[i]);
        i = i + 1;
        assert(out@ =~= old(out)@ + bytes@.take(i as int));
    }
    assert(bytes@.take(bytes@.len() as int) =~= bytes@);
}

/// Build the request for a JSON body; a body over the request limit is
/// refused.
pub fn build_json_request(host_header: &str, credential: &str, body: &[u8]) -> (r: Result<
    Vec<u8>,
    RemoteHttpClientError,
>)
    ensures
        body@.len() > DEFAULT_REMOTE_HTTP_MAX_REQUEST_BYTES ==> (r matches Err(e) && e.is(
            "REQUEST_TOO_LARGE"@,
            "HTTP request body is too large"@,
        )),
        body@.len() <= DEFAULT_REMOTE_HTTP_MAX_REQUEST_BYTES ==> (r matches Ok(v) && v@
            == json_request_bytes(host_header@, credential@, body@)),
{
    if body.len() > DEFAULT_REMOTE_HTTP_MAX_REQUEST_BYTES {
        return Err(RemoteHttpClientError::new("REQUEST_TOO_LARGE", "HTTP request body is too large"));
    }
    let length_digits = u64_decimal(body.len() as u64);
    let length = string_from_chars(length_digits.as_slice());
    let mut request: Vec<u8> = Vec::new();
    push_bytes(&mut request, "POST ".as_bytes());
    push_bytes(&mut request, HTTP_PROTOCOL_PATH.as_bytes());
    push_bytes(&mut request, " HTTP/1.1\r\nHost: ".as_bytes());
    push_bytes(&mut request, host_header.as_bytes());
    push_bytes(&mut request, "\r\nAuthorization: Bearer ".as_bytes());
    push_bytes(&mut request, credential.as_bytes());
    push_bytes(
        &mut request,
        "\r\nContent-Type: application/json\r\nAccept: application/json\r\nConnection: close\r\nContent-Length: ".as_bytes(),
    );
    push_bytes(&mut request, length.as_str().as_bytes());
    push_bytes(&mut request, "\r\n\r\n".as_bytes());
    push_bytes(&mut request, body);
    Ok(request)
}

/// Check a reply against the request it answers: a protocol response must
/// be of the supported version and carry the request's id; a reply with no
/// protocol response is acceptable only as a transport error (400 and
/// above).
pub fn check_protocol_reply(
    http_status: u16,
    response: &Option<ProtocolResponse>,
    request_id: &str,
) -> (r: Result<(), RemoteHttpClientError>)
    ensures
        match *response {
            Some(p) => if p.protocol_version@ != EXTERNAL_AGENT_PROTOCOL_VERSION@ {
                r matches Err(e) && e.code_view() == "PROTOCOL_RESPONSE_INVALID"@ && e.message_view()
                    == "HTTP response protocol version is invalid"@ && e.status_view() == Some(
                    http_status,
                )
            } else if p.request_id@ != request_id@ {
                r matches Err(e) && e.code_view() == "PROTOCOL_RESPONSE_INVALID"@ && e.message_view()
                    == "HTTP response request id does not match"@ && e.status_view() == Some(
                    http_status,
                )
            } else {
                r is Ok
            },
            None => if http_status < 400 {
                r matches Err(e) && e.code_view() == "PROTOCOL_RESPONSE_INVALID"@ && e.message_view()
                    == "HTTP response is not a valid protocol response"@ && e.status_view() == Some(
                    http_status,
                )
            } else {
                r is Ok
            },
        },
{
    let envelope = match response {
        Some(p) => Some(
            ReplyEnvelope {
                protocol_version: p.protocol_version.clone(),
                request_id: p.request_id.clone(),
            },
        ),
        None => None,
    };
    check_reply_envelope(http_status, &envelope, request_id)
}

/// The first position of `pat` in `s`.
pub open spec fn first_position(s: Seq<u8>, pat: Seq<u8>) -> Option<int> {
    if exists|i: int| occurs_at(s, pat, i) {
        Some(choose|i: int| occurs_at(s, pat, i) && forall|j: int| 0 <= j < i ==> !occurs_at(s, pat, j))
    } else {
        None
    }
}

fn find_bytes(s: &[u8], pat: &[u8]) -> (r: Option<usize>)
    requires
        pat@.len() > 0,
    ensures
        match r {
            Some(i) => occurs_at(s@, pat@, i as int) && forall|j: int|
                0 <= j < i ==> !occurs_at(s@, pat@, j),
            None => forall|j: int| !occurs_at(s@, pat@, j),
        },
{
    proof {
        assert forall|j: int| s@.len() < j + pat@.len() implies !occurs_at(s@, pat@, j) by {}
    }
    if s.len() < pat.len() {
        return None;
    }
    let mut i: usize = 0;
    let n = s.len();
    let last = n - pat.len();
    while i <= last
        invariant
            pat@.len() > 0,
            s@.len() >= pat@.len(),
            last == s@.len() - pat@.len(),
            last < n,
            n == s@.len(),
            i <= last + 1,
            forall|j: int| 0 <= j < i ==> !occurs_at(s@, pat@, j),
        decreases last + 1 - i,
    {
        if crate::text::bytes_occur_at(s, pat, i) {
            return Some(i);
        }
        i = i + 1;
    }
    None
}

/// Where the response headers end: the first `\r\n\r\n`.
pub fn find_header_end(bytes: &[u8]) -> (r: Option<usize>)
    ensures
        match r {
            Some(i) => first_position(bytes@, "\r\n\r\n"@.map_values(|c: char| c as u8)) == Some(
                i as int,
            ) && i + 4 <= bytes@.len(),
            None => first_position(bytes@, "\r\n\r\n"@.map_values(|c: char| c as u8)) is None,
        },
{
    let pat: [u8; 4] = [13u8, 10u8, 13u8, 10u8];
    proof {
        reveal_strlit("\r\n\r\n");
        assert(pat@ =~= "\r\n\r\n"@.map_values(|c: char| c as u8));
    }
    let r = find_bytes(bytes, &pat);
    proof {
        let p = "\r\n\r\n"@.map_values(|c: char| c as u8);
        match r {
            Some(i) => {
                let f = first_position(bytes@, p);
                assert(occurs_at(bytes@, p, i as int));
                let c = choose|k: int| occurs_at(bytes@, p, k) && forall|j: int|
                    0 <= j < k ==> !occurs_at(bytes@, p, j);
                assert(c == i as int);
            },
            None => {},
        }
    }
    r
}


/// `std::str::from_utf8`: the text the bytes encode, when they are valid
/// UTF-8.
#[verifier::external_body]
pub(crate) fn utf8_text(bytes: &[u8]) -> (r: Option<String>)
    ensures
        r is Some <==> valid_utf8(bytes@),
        r matches Some(s) ==> s@ == decode_utf8(bytes@),
{
    std::str::from_utf8(bytes).ok().map(|s| s.to_owned())
}

/// ASCII white space, as `split_ascii_whitespace` uses it.
pub open spec fn ascii_space(c: char) -> bool {
    c == ' ' || c == '\t' || c == '\n' || c == '\x0C' || c == '\r'
}

/// The length of the leading run of non-space characters.
pub open spec fn field_len(s: Seq<char>) -> nat
    decreases s.len(),
{
    if s.len() == 0 || ascii_space(s[0]) {
        0
    } else {
        1 + field_len(s.drop_first())
    }
}

/// The fields of `s` between ASCII white space, as `split_ascii_whitespace`.
pub open spec fn ascii_fields(s: Seq<char>) -> Seq<Seq<char>>
    decreases s.len(),
{
    if s.len() == 0 {
        Seq::empty()
    } else if ascii_space(s[0]) {
        ascii_fields(s.drop_first())
    } else {
        let n = field_len(s);
        if 0 < n <= s.len() {
            seq![s.take(n as int)] + ascii_fields(s.skip(n as int))
        } else {
            Seq::empty()
        }
    }
}

proof fn lemma_field_len_bound(s: Seq<char>)
    ensures
        field_len(s) <= s.len(),
        s.len() > 0 && !ascii_space(s[0]) ==> field_len(s) > 0,
    decreases s.len(),
{
    if s.len() > 0 && !ascii_space(s[0]) {
        lemma_field_len_bound(s.drop_first());
    }
}

fn is_ascii_space_char(c: char) -> (r: bool)
    ensures
        r == ascii_space(c),
{
    c == ' ' || c == '\t' || c == '\n' || c == '\x0C' || c == '\r'
}

/// The fields of a text between ASCII white space.
pub fn split_ascii_fields(s: &[char]) -> (r: Vec<Vec<char>>)
    ensures
        r@.map_values(|f: Vec<char>| f@) == ascii_fields(s@),
{
    let mut out: Vec<Vec<char>> = Vec::new();
    let mut i: usize = 0;
    assert(s@.skip(0) =~= s@);
    assert(out@.map_values(|f: Vec<char>| f@) + ascii_fields(s@) =~= ascii_fields(s@));
    while i < s.len()
        invariant
            i <= s@.len(),
            out@.map_values(|f: Vec<char>| f@) + ascii_fields(s@.skip(i as int)) == ascii_fields(
                s@,
            ),
        decreases s@.len() - i,
    {
        if is_ascii_space_char(s[i]) {
            assert(s@.skip(i as int).drop_first() =~= s@.skip(i + 1));
            i = i + 1;
        } else {
            let start = i;
            let mut field: Vec<char> = Vec::new();
            proof {
                lemma_field_len_bound(s@.skip(i as int));
            }
            while i < s.len() && !is_ascii_space_char(s[i])
                invariant
                    start <= i <= s@.len(),
                    field@ == s@.subrange(start as int, i as int),
                    field_len(s@.skip(start as int)) == (i - start) + field_len(s@.skip(i as int)),
                decreases s@.len() - i,
            {
                assert(s@.skip(i as int).drop_first() =~= s@.skip(i + 1));
                field.push(s[i]);
                i = i + 1;
                assert(field@ =~= s@.subrange(start as int, i as int));
            }
            proof {
                let t = s@.skip(start as int);
                assert(field_len(s@.skip(i as int)) == 0);
                assert(field_len(t) == i - start);
                lemma_field_len_bound(t);
                assert(t.take(i - start) =~= field@);
                assert(t.skip(i - start) =~= s@.skip(i as int));
                let ghost before = out@.map_values(|f: Vec<char>| f@);
                assert(ascii_fields(t) == seq![field@] + ascii_fields(s@.skip(i as int)));
            }
            let ghost before = out@;
            out.push(field);
            proof {
                assert(out@.map_values(|f: Vec<char>| f@) =~= before.map_values(|f: Vec<char>| f@).push(
                    out@.last()@,
                ));
                assert(out@.map_values(|f: Vec<char>| f@) + ascii_fields(s@.skip(i as int))
                    =~= before.map_values(|f: Vec<char>| f@) + (seq![out@.last()@] + ascii_fields(
                    s@.skip(i as int),
                )));
            }
        }
    }
    assert(s@.skip(i as int) =~= Seq::<char>::empty());
    assert(out@.map_values(|f: Vec<char>| f@) + Seq::<Seq<char>>::empty() =~= out@.map_values(
        |f: Vec<char>| f@,
    ));
    out
}

/// The status line: the header text before the first `\r\n`.
pub open spec fn status_line(headers: Seq<u8>) -> Seq<u8> {
    match first_position(headers, "\r\n"@.map_values(|c: char| c as u8)) {
        Some(i) => headers.take(i),
        None => headers,
    }
}

/// The status code of a response: a status line of valid UTF-8 whose first
/// field is `HTTP/1.1` or `HTTP/1.0` and whose second parses as a status
/// between 100 and 599.
pub open spec fn status_of(headers: Seq<u8>) -> Option<u16> {
    let line = status_line(headers);
    if !valid_utf8(line) {
        None
    } else {
        let fields = ascii_fields(decode_utf8(line));
        if fields.len() == 0 || (fields[0] != "HTTP/1.1"@ && fields[0] != "HTTP/1.0"@) {
            None
        } else if fields.len() < 2 {
            None
        } else {
            match parse_unsigned(fields[1], 65535) {
                Some(n) => if 100 <= n <= 599 {
                    Some(n as u16)
                } else {
                    None
                },
                None => None,
            }
        }
    }
}

/// Read the status code of a response's header block.
pub fn parse_status(headers: &[u8]) -> (r: Result<u16, RemoteHttpClientError>)
    ensures
        match status_of(headers@) {
            Some(n) => r == Ok::<u16, RemoteHttpClientError>(n),
            None => r matches Err(e) && e.is(
                "INVALID_HTTP_RESPONSE"@,
                "HTTP response status is invalid"@,
            ),
        },
{
    let crlf: [u8; 2] = [13u8, 10u8];
    proof {
        reveal_strlit("\r\n");
        assert(crlf@ =~= "\r\n"@.map_values(|c: char| c as u8));
    }
    let found = find_bytes(headers, &crlf);
    let line_end = match found {
        Some(i) => i,
        None => headers.len(),
    };
    proof {
        let p = "\r\n"@.map_values(|c: char| c as u8);
        match found {
            Some(i) => {
                let c = choose|k: int| occurs_at(headers@, p, k) && forall|j: int|
                    0 <= j < k ==> !occurs_at(headers@, p, j);
                assert(c == i as int);
                assert(headers@.subrange(0, i as int) =~= status_line(headers@));
            },
            None => {
                assert(headers@.subrange(0, headers@.len() as int) =~= status_line(headers@));
            },
        }
    }
    let line_bytes = vstd::slice::slice_subrange(headers, 0, line_end);
    let invalid = RemoteHttpClientError::new("INVALID_HTTP_RESPONSE", "HTTP response status is invalid");
    let line = match utf8_text(line_bytes) {
        Some(text) => text,
        None => {
            return Err(invalid);
        },
    };
    let chars = chars_of(line.as_str());
    let fields = split_ascii_fields(chars.as_slice());
    proof {
        reveal_strlit("HTTP/1.1");
        reveal_strlit("HTTP/1.0");
        assert(fields@.len() == ascii_fields(chars@).len());
        if fields@.len() > 0 {
            assert(fields@[0]@ == ascii_fields(chars@)[0]);
        }
        if fields@.len() > 1 {
            assert(fields@[1]@ == ascii_fields(chars@)[1]);
        }
    }
    if fields.len() == 0 {
        return Err(invalid);
    }
    let version = string_from_chars(fields[0].as_slice());
    if !str_equal(version.as_str(), "HTTP/1.1") && !str_equal(version.as_str(), "HTTP/1.0") {
        return Err(invalid);
    }
    if fields.len() < 2 {
        return Err(invalid);
    }
    match parse_usize(fields[1].as_slice()) {
        Some(n) => {
            if 100 <= n && n <= 599 {
                Ok(n as u16)
            } else {
                Err(invalid)
            }
        },
        None => Err(invalid),
    }
}



/// The length of the prefix of `s` before its first `\r\n` (all of `s`
/// when there is none).
pub open spec fn line_len(s: Seq<char>) -> nat
    decreases s.len(),
{
    if s.len() < 2 {
        s.len()
    } else if s[0] == '\r' && s[1] == '\n' {
        0
    } else {
        1 + line_len(s.drop_first())
    }
}

proof fn lemma_line_len(s: Seq<char>)
    ensures
        line_len(s) <= s.len(),
        line_len(s) + 2 <= s.len() ==> s[line_len(s) as int] == '\r' && s[line_len(s) as int + 1] == '\n',
        line_len(s) + 2 > s.len() ==> line_len(s) == s.len(),
    decreases s.len(),
{
    if s.len() >= 2 && !(s[0] == '\r' && s[1] == '\n') {
        lemma_line_len(s.drop_first());
    }
}

/// The lines of `s` between `\r\n` separators, as `split("\r\n")`.
pub open spec fn crlf_lines(s: Seq<char>) -> Seq<Seq<char>>
    decreases s.len(),
{
    let n = line_len(s);
    if n + 2 <= s.len() {
        seq![s.take(n as int)] + crlf_lines(s.skip(n as int + 2))
    } else {
        seq![s]
    }
}

/// `value.split_once(c)`.
pub open spec fn split_once_char(value: Seq<char>, c: char) -> Option<(Seq<char>, Seq<char>)> {
    if value.contains(c) {
        let i = value.index_of_first(c)->0;
        Some((value.take(i), value.skip(i + 1)))
    } else {
        None
    }
}

/// Scan header lines for the content length: every line needs a `:`; a
/// `Content-Length` (in any case, trimmed) must hold a length, and only
/// once.
pub open spec fn length_scan(lines: Seq<Seq<char>>, found: Option<nat>) -> Result<
    Option<nat>,
    Seq<char>,
>
    decreases lines.len(),
{
    if lines.len() == 0 {
        Ok(found)
    } else {
        match split_once_char(lines[0], ':') {
            None => Err("HTTP response headers are invalid"@),
            Some((name, value)) => if lower_seq(trimmed(name)) == lower_seq("Content-Length"@) {
                match parse_unsigned(trimmed(value), usize::MAX as nat) {
                    None => Err("HTTP response content length is invalid"@),
                    Some(n) => if found is Some {
                        Err("HTTP response content length is ambiguous"@)
                    } else {
                        length_scan(lines.drop_first(), Some(n))
                    },
                }
            } else {
                length_scan(lines.drop_first(), found)
            },
        }
    }
}

/// A `Content-Length` header is recognized whatever the case of its name:
/// a header line whose trimmed name is `Content-Length` up to ASCII case
/// and whose trimmed value is a length `n` declares `n`.
pub proof fn lemma_content_length_name_ignores_case(name: Seq<char>, value: Seq<char>, n: nat)
    requires
        !name.contains(':'),
        same_ignoring_ascii_case(trimmed(name), "Content-Length"@),
        parse_unsigned(trimmed(value), usize::MAX as nat) == Some(n),
    ensures
        length_scan(seq![name + seq![':'] + value], None) == Ok::<Option<nat>, Seq<char>>(Some(n)),
{
    let line = name + seq![':'] + value;
    assert(line[name.len() as int] == ':');
    assert(line.contains(':'));
    line.index_of_first_ensures(':');
    let i = line.index_of_first(':')->0;
    if i < name.len() {
        assert(name[i] == ':');
        assert(name.contains(':'));
    }
    assert(i == name.len());
    assert(line.take(i) =~= name);
    assert(line.skip(i + 1) =~= value);
    lemma_lower_seq_ignores_case(trimmed(name), "Content-Length"@);
    let rest = seq![line].drop_first();
    assert(rest.len() == 0);
    reveal_with_fuel(length_scan, 2);
}

/// The content length a response's header block declares.
pub open spec fn content_length_of(headers: Seq<u8>) -> Result<Option<nat>, Seq<char>> {
    if !valid_utf8(headers) {
        Err("HTTP response headers are invalid"@)
    } else {
        length_scan(crlf_lines(decode_utf8(headers)).skip(1), None)
    }
}

fn split_crlf(s: &[char]) -> (r: Vec<Vec<char>>)
    ensures
        r@.map_values(|f: Vec<char>| f@) == crlf_lines(s@),
{
    let mut out: Vec<Vec<char>> = Vec::new();
    let mut i: usize = 0;
    assert(s@.skip(0) =~= s@);
    assert(out@.map_values(|f: Vec<char>| f@) + crlf_lines(s@) =~= crlf_lines(s@));
    loop
        invariant
            i <= s@.len(),
            out@.map_values(|f: Vec<char>| f@) + crlf_lines(s@.skip(i as int)) == crlf_lines(s@),
        decreases s@.len() - i,
    {
        let start = i;
        let mut line: Vec<char> = Vec::new();
        while i < s.len() && !(i + 1 < s.len() && s[i] == '\r' && s[i + 1] == '\n')
            invariant
                start <= i <= s@.len(),
                line@ == s@.subrange(start as int, i as int),
                line_len(s@.skip(start as int)) == (i - start) + line_len(s@.skip(i as int)),
            decreases s@.len() - i,
        {
            assert(s@.skip(i as int).drop_first() =~= s@.skip(i + 1));
            line.push(s[i]);
            i = i + 1;
            assert(line@ =~= s@.subrange(start as int, i as int));
        }
        let ghost t = s@.skip(start as int);
        proof {
            lemma_line_len(t);
            assert(line_len(t) == i - start);
            assert(t.take(i - start) =~= line@);
        }
        let ghost before = out@;
        if i < s.len() {
            proof {
                assert(t.skip(i - start + 2) =~= s@.skip(i + 2));
                assert(crlf_lines(t) == seq![line@] + crlf_lines(s@.skip(i + 2)));
            }
            out.push(line);
            i = i + 2;
            proof {
                assert(out@.map_values(|f: Vec<char>| f@) =~= before.map_values(|f: Vec<char>| f@).push(
                    out@.last()@,
                ));
                assert(out@.map_values(|f: Vec<char>| f@) + crlf_lines(s@.skip(i as int))
                    =~= before.map_values(|f: Vec<char>| f@) + (seq![out@.last()@] + crlf_lines(
                    s@.skip(i as int),
                )));
            }
        } else {
            proof {
                assert(t =~= line@);
                assert(crlf_lines(t) == seq![line@]);
            }
            out.push(line);
            proof {
                assert(out@.map_values(|f: Vec<char>| f@) =~= before.map_values(|f: Vec<char>| f@).push(
                    out@.last()@,
                ));
            }
            return out;
        }
    }
}

fn split_once_at(value: &[char], c: char) -> (r: Option<(Vec<char>, Vec<char>)>)
    ensures
        match split_once_char(value@, c) {
            Some((a, b)) => r matches Some((x, y)) && x@ == a && y@ == b,
            None => r is None,
        },
{
    let mut i: usize = 0;
    while i < value.len() && value[i] != c
        invariant
            i <= value@.len(),
            forall|k: int| 0 <= k < i ==> value@[k] != c,
        decreases value@.len() - i,
    {
        i = i + 1;
    }
    if i == value.len() {
        proof {
            if value@.contains(c) {
                let k = choose|k: int| 0 <= k < value@.len() && value@[k] == c;
                assert(value@[k] == c);
            }
        }
        return None;
    }
    proof {
        value@.index_of_first_ensures(c);
        assert(value@.contains(c)) by {
            assert(value@[i as int] == c);
        }
    }
    let mut head: Vec<char> = Vec::new();
    let mut k: usize = 0;
    while k < i
        invariant
            k <= i < value@.len(),
            head@ == value@.take(k as int),
        decreases i - k,
    {
        head.push(value[k]);
        k = k + 1;
        assert(head@ =~= value@.take(k as int));
    }
    let mut tail: Vec<char> = Vec::new();
    let mut m: usize = i + 1;
    while m < value.len()
        invariant
            i < value@.len(),
            i + 1 <= m <= value@.len(),
            tail@ == value@.subrange(i + 1, m as int),
        decreases value@.len() - m,
    {
        tail.push(value[m]);
        m = m + 1;
        assert(tail@ =~= value@.subrange(i + 1, m as int));
    }
    assert(tail@ =~= value@.skip(i + 1));
    Some((head, tail))
}

/// Read the content length a response's header block declares.
pub fn response_content_length(headers: &[u8]) -> (r: Result<Option<usize>, RemoteHttpClientError>)
    ensures
        match content_length_of(headers@) {
            Ok(Some(n)) => r matches Ok(Some(v)) && v == n,
            Ok(None) => r matches Ok(None),
            Err(m) => r matches Err(e) && e.is("INVALID_HTTP_RESPONSE"@, m),
        },
{
    let text = match utf8_text(headers) {
        Some(t) => t,
        None => {
            return Err(
                RemoteHttpClientError::new("INVALID_HTTP_RESPONSE", "HTTP response headers are invalid"),
            );
        },
    };
    let chars = chars_of(text.as_str());
    let lines = split_crlf(chars.as_slice());
    let ghost all = lines@.map_values(|f: Vec<char>| f@);
    let mut length: Option<usize> = None;
    let mut k: usize = 1;
    proof {
        assert(all.len() > 0) by {
            lemma_line_len(chars@);
        }
        assert(all.skip(1) =~= all.skip(k as int));
    }
    while k < lines.len()
        invariant
            all == lines@.map_values(|f: Vec<char>| f@),
            all == crlf_lines(decode_utf8(headers@)),
            1 <= k <= lines@.len(),
            valid_utf8(headers@),
            length_scan(all.skip(k as int), match length {
                Some(v) => Some(v as nat),
                None => None,
            }) == content_length_of(headers@),
        decreases lines@.len() - k,
    {
        let ghost rest = all.skip(k as int);
        assert(rest[0] == lines@[k as int]@);
        assert(rest.drop_first() =~= all.skip(k + 1));
        let line = &lines[k];
        match split_once_at(line.as_slice(), ':') {
            None => {
                return Err(
                    RemoteHttpClientError::new(
                        "INVALID_HTTP_RESPONSE",
                        "HTTP response headers are invalid",
                    ),
                );
            },
            Some((name, value)) => {
                let name_trim = crate::http_transport::trim_chars(name.as_slice());
                let name_text = string_from_chars(name_trim.as_slice());
                if eq_ignore_ascii_case(name_text.as_str(), "Content-Length") {
                    let value_trim = crate::http_transport::trim_chars(value.as_slice());
                    match parse_usize(value_trim.as_slice()) {
                        None => {
                            return Err(
                                RemoteHttpClientError::new(
                                    "INVALID_HTTP_RESPONSE",
                                    "HTTP response content length is invalid",
                                ),
                            );
                        },
                        Some(n) => {
                            if length.is_some() {
                                return Err(
                                    RemoteHttpClientError::new(
                                        "INVALID_HTTP_RESPONSE",
                                        "HTTP response content length is ambiguous",
                                    ),
                                );
                            }
                            length = Some(n);
                        },
                    }
                }
            },
        }
        k = k + 1;
    }
    assert(all.skip(k as int) =~= Seq::<Seq<char>>::empty());
    Ok(length)
}



/// The bytes that end a response's header block.
pub open spec fn header_terminator() -> Seq<u8> {
    "\r\n\r\n"@.map_values(|c: char| c as u8)
}

/// Where reading a reply stands after the bytes read so far.
#[derive(Debug)]
pub enum ReplyStep {
    /// More bytes are needed: read again (`eof` then tells whether the
    /// read found the end of the stream).
    NeedMore,
    /// The reply is complete: its status and body.
    Complete { http_status: u16, body: Vec<u8> },
    /// The reply is refused.
    Failed(RemoteHttpClientError),
}

/// `r` is the failure `code`/`message` with status `status`.
pub open spec fn step_fails(r: ReplyStep, code: Seq<char>, message: Seq<char>, status: Option<u16>) -> bool {
    r matches ReplyStep::Failed(e) && e.code_view() == code && e.message_view() == message
        && e.status_view() == status
}

/// The decision after the reply's header block, which ends at `h`, was
/// read with status `status`.
pub open spec fn body_step(
    r: ReplyStep,
    bytes: Seq<u8>,
    h: int,
    status: u16,
    eof: bool,
    max_response_bytes: usize,
) -> bool {
    let start = h + 4;
    match content_length_of(bytes.take(h)) {
        Err(m) => step_fails(r, "INVALID_HTTP_RESPONSE"@, m, Some(status)),
        Ok(Some(n)) => if n > max_response_bytes || start + n > usize::MAX {
            step_fails(r, "RESPONSE_TOO_LARGE"@, "HTTP response is too large"@, Some(status))
        } else if bytes.len() < start + n {
            if eof {
                step_fails(
                    r,
                    "INVALID_HTTP_RESPONSE"@,
                    "HTTP response ended unexpectedly"@,
                    Some(status),
                )
            } else {
                r is NeedMore
            }
        } else {
            r matches ReplyStep::Complete { http_status, body } && http_status == status && body@
                == bytes.subrange(start, start + n)
        },
        Ok(None) => if bytes.len() - start > max_response_bytes {
            step_fails(r, "RESPONSE_TOO_LARGE"@, "HTTP response is too large"@, Some(status))
        } else if eof {
            r matches ReplyStep::Complete { http_status, body } && http_status == status && body@
                == bytes.skip(start)
        } else {
            r is NeedMore
        },
    }
}

/// A reply is only completed with the status its header gave and a body
/// that lies right after the header block and within the response limit;
/// with a declared length the body is exactly that long.
pub proof fn lemma_completed_bodies_are_bounded(
    r: ReplyStep,
    bytes: Seq<u8>,
    h: int,
    status: u16,
    eof: bool,
    max_response_bytes: usize,
)
    requires
        0 <= h,
        h + 4 <= bytes.len(),
        body_step(r, bytes, h, status, eof, max_response_bytes),
    ensures
        r matches ReplyStep::Complete { http_status, body } ==> {
            &&& http_status == status
            &&& body@.len() <= max_response_bytes
            &&& body@ == bytes.subrange(h + 4, h + 4 + body@.len())
            &&& (content_length_of(bytes.take(h)) matches Ok(Some(n)) ==> body@.len() == n)
        },
{
}

/// A status is only read from a status line when it lies between 100 and
/// 599.
pub proof fn lemma_statuses_are_in_range(headers: Seq<u8>)
    ensures
        status_of(headers) matches Some(s) ==> 100 <= s <= 599,
{
}

fn fail_step(code: &'static str, message: &'static str) -> (r: ReplyStep)
    ensures
        step_fails(r, code@, message@, None),
{
    ReplyStep::Failed(RemoteHttpClientError::new(code, message))
}

fn fail_step_with(code: &'static str, message: &'static str, status: u16) -> (r: ReplyStep)
    ensures
        step_fails(r, code@, message@, Some(status)),
{
    ReplyStep::Failed(RemoteHttpClientError::new(code, message).with_http_status(status))
}

/// The decision once the header block, ending at `h`, gave `status`.
fn body_decision(bytes: &[u8], h: usize, status: u16, eof: bool, max_response_bytes: usize) -> (r:
    ReplyStep)
    requires
        h + 4 <= bytes@.len(),
    ensures
        body_step(r, bytes@, h as int, status, eof, max_response_bytes),
{
    let headers = vstd::slice::slice_subrange(bytes, 0, h);
    assert(headers@ =~= bytes@.take(h as int));
    let len = bytes.len();
    let start = h + 4;
    match response_content_length(headers) {
        Err(e) => ReplyStep::Failed(e.with_http_status(status)),
        Ok(Some(n)) => {
            if n > max_response_bytes || n > usize::MAX - start {
                return fail_step_with("RESPONSE_TOO_LARGE", "HTTP response is too large", status);
            }
            let end = start + n;
            if bytes.len() < end {
                if eof {
                    return fail_step_with(
                        "INVALID_HTTP_RESPONSE",
                        "HTTP response ended unexpectedly",
                        status,
                    );
                }
                return ReplyStep::NeedMore;
            }
            let body = vstd::slice::slice_to_vec(vstd::slice::slice_subrange(bytes, start, end));
            ReplyStep::Complete { http_status: status, body }
        },
        Ok(None) => {
            if bytes.len() - start > max_response_bytes {
                return fail_step_with("RESPONSE_TOO_LARGE", "HTTP response is too large", status);
            }
            if !eof {
                return ReplyStep::NeedMore;
            }
            let body = vstd::slice::slice_to_vec(
                vstd::slice::slice_subrange(bytes, start, bytes.len()),
            );
            assert(body@ =~= bytes@.skip(start as int));
            ReplyStep::Complete { http_status: status, body }
        },
    }
}

/// Decide how reading a reply goes on from the bytes read so far; `eof`
/// is whether the last read found the end of the stream. The header block
/// must end within the header limit; its status and content length are
/// read; a declared length is read exactly, else the body runs to the end
/// of the stream; a body over `max_response_bytes` is refused.
#[verifier::rlimit(50)]
pub fn reply_step(bytes: &[u8], eof: bool, max_response_bytes: usize) -> (r: ReplyStep)
    ensures
        match first_position(bytes@, header_terminator()) {
            None => if bytes@.len() > MAX_HTTP_HEADER_BYTES + 3 {
                step_fails(
                    r,
                    "INVALID_HTTP_RESPONSE"@,
                    "HTTP response headers are too large"@,
                    None,
                )
            } else if eof {
                step_fails(r, "INVALID_HTTP_RESPONSE"@, "HTTP response ended unexpectedly"@, None)
            } else {
                r is NeedMore
            },
            Some(h) => if h > MAX_HTTP_HEADER_BYTES {
                step_fails(
                    r,
                    "INVALID_HTTP_RESPONSE"@,
                    "HTTP response headers are too large"@,
                    None,
                )
            } else {
                match status_of(bytes@.take(h)) {
                    None => step_fails(
                        r,
                        "INVALID_HTTP_RESPONSE"@,
                        "HTTP response status is invalid"@,
                        None,
                    ),
                    Some(status) => body_step(r, bytes@, h, status, eof, max_response_bytes),
                }
            },
        },
{
    let h = match find_header_end(bytes) {
        None => {
            if bytes.len() > MAX_HTTP_HEADER_BYTES + 3 {
                return fail_step("INVALID_HTTP_RESPONSE", "HTTP response headers are too large");
            }
            if eof {
                return fail_step("INVALID_HTTP_RESPONSE", "HTTP response ended unexpectedly");
            }
            return ReplyStep::NeedMore;
        },
        Some(h) => h,
    };
    if h > MAX_HTTP_HEADER_BYTES {
        return fail_step("INVALID_HTTP_RESPONSE", "HTTP response headers are too large");
    }
    let headers = vstd::slice::slice_subrange(bytes, 0, h);
    assert(headers@ =~= bytes@.take(h as int));
    match parse_status(headers) {
        Ok(status) => body_decision(bytes, h, status, eof, max_response_bytes),
        Err(e) => ReplyStep::Failed(e),
    }
}


/// An entry of a credential file is usable by a client when it names a
/// Principal, at least one Agent, no blank Agent, and a credential free of
/// white space.
pub open spec fn credential_entry_usable(entry: CredentialGrant) -> bool {
    &&& !is_blank(entry.principal_id@)
    &&& entry.agent_ids@.len() > 0
    &&& forall|i: int| 0 <= i < entry.agent_ids@.len() ==> !is_blank((#[trigger] entry.agent_ids@[i])@)
    &&& !is_blank(entry.credential@)
    &&& !has_space(entry.credential@)
}

/// The credential of entry `index` of a credential file, when that entry
/// exists and is usable.
pub fn select_credential_entry(entries: &Vec<CredentialGrant>, index: usize) -> (r: Result<
    String,
    RemoteHttpClientError,
>)
    ensures
        (index < entries@.len() && credential_entry_usable(entries@[index as int])) ==> (r matches Ok(
            c,
        ) && c@ == entries@[index as int].credential@),
        !(index < entries@.len() && credential_entry_usable(entries@[index as int])) ==> (r matches Err(
            e,
        ) && e.is("CREDENTIAL_SOURCE_INVALID"@, "credential source is invalid"@)),
{
    if index >= entries.len() {
        return Err(RemoteHttpClientError::new("CREDENTIAL_SOURCE_INVALID", "credential source is invalid"));
    }
    let entry = &entries[index];
    let mut usable = !str_is_blank(entry.principal_id.as_str()) && entry.agent_ids.len() > 0;
    let mut k: usize = 0;
    while k < entry.agent_ids.len()
        invariant
            k <= entry.agent_ids@.len(),
            usable == (!is_blank(entry.principal_id@) && entry.agent_ids@.len() > 0 && forall|i: int|
                0 <= i < k ==> !is_blank((#[trigger] entry.agent_ids@[i])@)),
        decreases entry.agent_ids@.len() - k,
    {
        if str_is_blank(entry.agent_ids[k].as_str()) {
            usable = false;
        }
        k = k + 1;
    }
    if !usable || str_is_blank(entry.credential.as_str()) || str_has_space(entry.credential.as_str()) {
        return Err(RemoteHttpClientError::new("CREDENTIAL_SOURCE_INVALID", "credential source is invalid"));
    }
    Ok(entry.credential.clone())
}

/// The envelope fields of a protocol response that a reply is checked by.
#[derive(Clone, Debug, PartialEq, Eq)]
pub struct ReplyEnvelope {
    pub protocol_version: String,
    pub request_id: String,
}

/// Check a reply against the request it answers, by the envelope of its
/// protocol response when it has one: the same rules as
/// `check_protocol_reply`.
pub fn check_reply_envelope(
    http_status: u16,
    envelope: &Option<ReplyEnvelope>,
    request_id: &str,
) -> (r: Result<(), RemoteHttpClientError>)
    ensures
        match *envelope {
            Some(p) => if p.protocol_version@ != EXTERNAL_AGENT_PROTOCOL_VERSION@ {
                r matches Err(e) && e.code_view() == "PROTOCOL_RESPONSE_INVALID"@ && e.message_view()
                    == "HTTP response protocol version is invalid"@ && e.status_view() == Some(
                    http_status,
                )
            } else if p.request_id@ != request_id@ {
                r matches Err(e) && e.code_view() == "PROTOCOL_RESPONSE_INVALID"@ && e.message_view()
                    == "HTTP response request id does not match"@ && e.status_view() == Some(
                    http_status,
                )
            } else {
                r is Ok
            },
            None => if http_status < 400 {
                r matches Err(e) && e.code_view() == "PROTOCOL_RESPONSE_INVALID"@ && e.message_view()
                    == "HTTP response is not a valid protocol response"@ && e.status_view() == Some(
                    http_status,
                )
            } else {
                r is Ok
            },
        },
{
    match envelope {
        Some(p) => {
            if !str_equal(p.protocol_version.as_str(), EXTERNAL_AGENT_PROTOCOL_VERSION) {
                return Err(
                    RemoteHttpClientError::new(
                        "PROTOCOL_RESPONSE_INVALID",
                        "HTTP response protocol version is invalid",
                    ).with_http_status(http_status),
                );
            }
            if !str_equal(p.request_id.as_str(), request_id) {
                return Err(
                    RemoteHttpClientError::new(
                        "PROTOCOL_RESPONSE_INVALID",
                        "HTTP response request id does not match",
                    ).with_http_status(http_status),
                );
            }
            Ok(())
        },
        None => {
            if http_status < 400 {
                return Err(
                    RemoteHttpClientError::new(
                        "PROTOCOL_RESPONSE_INVALID",
                        "HTTP response is not a valid protocol response",
                    ).with_http_status(http_status),
                );
            }
            Ok(())
        },
    }
}

} // verus!
