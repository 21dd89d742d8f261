//! Deterministic, pre-persistence redaction policy for structured payloads.
use crate::canonical::{append_chars, push_quoted, quoted};
use crate::error::{text_of, PongError};
use crate::json::JsonValue;
use crate::text::{
    str_equal, chars_end_with, chars_equal, chars_occur_at, chars_of, bytes_contain, contains_seq, decimal,
    ends_with, lemma_lower_seq_ignores_case, lower_chars, lower_seq, same_ignoring_ascii_case, string_from_chars, u64_decimal, occurs_at,
};
use vstd::prelude::*;
use vstd::utf8::encode_utf8;

verus! {

broadcast use vstd::string::group_string_axioms;

/// The marker that replaces a registered secret.
pub open spec fn redacted_marker() -> Seq<char> {
    "[REDACTED]"@
}

/// Public, non-secret identity for a redaction policy: only the policy
/// identity and version, never a registered secret.
#[derive(Clone, Debug, PartialEq, Eq)]
pub struct RedactionProfile {
    pub id: String,
    pub version: String,
}

/// The number of UTF-8 bytes of a text, what `str::len` counts.
pub open spec fn byte_len(s: Seq<char>) -> nat {
    encode_utf8(s).len()
}

/// Registered secrets: no repeats, at least four bytes each, longest first.
pub open spec fn secrets_wf(s: Seq<Seq<char>>) -> bool {
    &&& s.no_duplicates()
    &&& forall|i: int| 0 <= i < s.len() ==> byte_len(#[trigger] s[i]) >= 4
    &&& forall|i: int, j: int|
        0 <= i < j < s.len() ==> byte_len(#[trigger] s[j]) <= byte_len(#[trigger] s[i])
}

/// Where a newly registered secret goes: after every secret at least as
/// long, which is where a stable longest-first sort of the list with the
/// secret appended places it.
pub open spec fn insert_by_len(x: Seq<char>, s: Seq<Seq<char>>) -> Seq<Seq<char>>
    decreases s.len(),
{
    if s.len() == 0 {
        seq![x]
    } else if byte_len(s[0]) < byte_len(x) {
        seq![x] + s
    } else {
        seq![s[0]] + insert_by_len(x, s.drop_first())
    }
}

/// Replace every non-overlapping occurrence of `pat`, scanning from the
/// left, as `str::replace` does.
pub open spec fn replace_all(s: Seq<char>, pat: Seq<char>, rep: Seq<char>) -> Seq<char>
    decreases s.len(),
{
    if pat.len() == 0 || s.len() < pat.len() {
        s
    } else if s.take(pat.len() as int) == pat {
        rep + replace_all(s.skip(pat.len() as int), pat, rep)
    } else {
        seq![s[0]] + replace_all(s.drop_first(), pat, rep)
    }
}

/// Replace each secret in turn, in list order.
pub open spec fn redact_all(s: Seq<char>, secrets: Seq<Seq<char>>) -> Seq<char>
    decreases secrets.len(),
{
    if secrets.len() == 0 {
        s
    } else {
        redact_all(replace_all(s, secrets[0], redacted_marker()), secrets.drop_first())
    }
}

/// Some registered secret occurs as an exact byte sequence.
pub open spec fn bytes_hold_secret(bytes: Seq<u8>, secrets: Seq<Seq<char>>) -> bool {
    exists|k: int| 0 <= k < secrets.len() && contains_seq(bytes, encode_utf8(#[trigger] secrets[k]))
}

/// A member name whose value is always replaced by the marker.
pub open spec fn is_sensitive_name(key: Seq<char>) -> bool {
    let n = lower_seq(key);
    ||| n == "secret"@ || ends_with(n, "_secret"@)
    ||| n == "password"@ || ends_with(n, "_password"@)
    ||| n == "passwd"@ || ends_with(n, "_passwd"@)
    ||| n == "token"@ || ends_with(n, "_token"@)
    ||| n == "api_key"@ || ends_with(n, "_api_key"@)
    ||| n == "apikey"@ || ends_with(n, "_apikey"@)
    ||| n == "authorization"@ || ends_with(n, "_authorization"@)
    ||| n == "cookie"@ || ends_with(n, "_cookie"@)
    ||| n == "private_key"@ || ends_with(n, "_private_key"@)
}

proof fn lemma_replace_absent(s: Seq<char>, pat: Seq<char>, rep: Seq<char>)
    requires
        !contains_seq(s, pat),
    ensures
        replace_all(s, pat, rep) == s,
    decreases s.len(),
{
    if pat.len() == 0 || s.len() < pat.len() {
    } else {
        assert(s.take(pat.len() as int) =~= s.subrange(0, pat.len() as int));
        assert(!occurs_at(s, pat, 0));
        let rest = s.drop_first();
        assert(!contains_seq(rest, pat)) by {
            if contains_seq(rest, pat) {
                let i = choose|i: int| occurs_at(rest, pat, i);
                assert(s.subrange(i + 1, i + 1 + pat.len()) =~= rest.subrange(i, i + pat.len()));
                assert(occurs_at(s, pat, i + 1));
            }
        }
        lemma_replace_absent(rest, pat, rep);
        assert(seq![s[0]] + rest =~= s);
    }
}

/// Text in which no registered secret occurs is left as it is by
/// redaction.
pub proof fn lemma_redaction_keeps_clean_text(s: Seq<char>, secrets: Seq<Seq<char>>)
    requires
        forall|k: int| 0 <= k < secrets.len() ==> !contains_seq(s, #[trigger] secrets[k]),
    ensures
        redact_all(s, secrets) == s,
    decreases secrets.len(),
{
    if secrets.len() > 0 {
        lemma_replace_absent(s, secrets[0], redacted_marker());
        let rest = secrets.drop_first();
        assert forall|k: int| 0 <= k < rest.len() implies !contains_seq(s, #[trigger] rest[k]) by {
            assert(rest[k] == secrets[k + 1]);
        }
        lemma_redaction_keeps_clean_text(s, rest);
    }
}

/// The bytes of a registered secret are detected as holding a secret.
pub proof fn lemma_registered_secret_is_detected(secret: Seq<char>, secrets: Seq<Seq<char>>)
    requires
        secrets.contains(secret),
    ensures
        bytes_hold_secret(encode_utf8(secret), secrets),
{
    let k = choose|k: int| 0 <= k < secrets.len() && secrets[k] == secret;
    let b = encode_utf8(secret);
    assert(b.subrange(0, b.len() as int) =~= b);
    assert(occurs_at(b, encode_utf8(secrets[k]), 0));
}

/// No bytes hold a secret of an empty list.
pub proof fn lemma_no_secrets_detect_nothing(bytes: Seq<u8>)
    ensures
        !bytes_hold_secret(bytes, Seq::<Seq<char>>::empty()),
{
}

proof fn lemma_insert_by_len_contains(x: Seq<char>, s: Seq<Seq<char>>)
    ensures
        insert_by_len(x, s).contains(x),
    decreases s.len(),
{
    if s.len() == 0 {
        assert(insert_by_len(x, s)[0] == x);
    } else if byte_len(s[0]) < byte_len(x) {
        assert(insert_by_len(x, s)[0] == x);
    } else {
        lemma_insert_by_len_contains(x, s.drop_first());
        let t = insert_by_len(x, s.drop_first());
        let j = choose|j: int| 0 <= j < t.len() && t[j] == x;
        assert(insert_by_len(x, s)[j + 1] == x);
    }
}

/// Whether a member is sensitive does not depend on the ASCII case of its
/// name.
pub proof fn lemma_sensitive_names_ignore_case(a: Seq<char>, b: Seq<char>)
    requires
        same_ignoring_ascii_case(a, b),
    ensures
        is_sensitive_name(a) == is_sensitive_name(b),
{
    lemma_lower_seq_ignores_case(a, b);
}

proof fn lemma_lower_keeps_lower_case(s: Seq<char>)
    requires
        forall|i: int| 0 <= i < s.len() ==> !(65 <= (#[trigger] s[i] as u32) <= 90),
    ensures
        lower_seq(s) == s,
{
    assert(lower_seq(s) =~= s);
}

/// The sensitive names: `secret`, `password`, `passwd`, `token`, `api_key`,
/// `apikey`, `authorization`, `cookie` and `private_key` mark a member
/// sensitive on their own, and as the last `_`-joined part of any longer
/// name.
pub proof fn lemma_sensitive_base_names(prefix: Seq<char>, base: Seq<char>)
    requires
        base == "secret"@ || base == "password"@ || base == "passwd"@ || base == "token"@ || base
            == "api_key"@ || base == "apikey"@ || base == "authorization"@ || base == "cookie"@
            || base == "private_key"@,
        forall|i: int| 0 <= i < prefix.len() ==> !(65 <= (#[trigger] prefix[i] as u32) <= 90),
    ensures
        is_sensitive_name(base),
        is_sensitive_name(prefix + seq!['_'] + base),
{
    reveal_strlit("secret");
    reveal_strlit("password");
    reveal_strlit("passwd");
    reveal_strlit("token");
    reveal_strlit("api_key");
    reveal_strlit("apikey");
    reveal_strlit("authorization");
    reveal_strlit("cookie");
    reveal_strlit("private_key");
    reveal_strlit("_secret");
    reveal_strlit("_password");
    reveal_strlit("_passwd");
    reveal_strlit("_token");
    reveal_strlit("_api_key");
    reveal_strlit("_apikey");
    reveal_strlit("_authorization");
    reveal_strlit("_cookie");
    reveal_strlit("_private_key");
    assert forall|i: int| 0 <= i < base.len() implies !(65 <= (#[trigger] base[i] as u32) <= 90) by {
        assert(base[i] as u32 >= 95);
    }
    lemma_lower_keeps_lower_case(base);
    let key = prefix + seq!['_'] + base;
    assert forall|i: int| 0 <= i < key.len() implies !(65 <= (#[trigger] key[i] as u32) <= 90) by {
        if i < prefix.len() {
            assert(key[i] == prefix[i]);
        } else if i == prefix.len() {
            assert(key[i] == '_');
        } else {
            assert(key[i] == base[i - prefix.len() - 1]);
        }
    }
    lemma_lower_keeps_lower_case(key);
    let tail = seq!['_'] + base;
    assert(key.subrange(key.len() - tail.len(), key.len() as int) =~= tail);
    if base == "secret"@ { assert(tail =~= "_secret"@); }
    if base == "password"@ { assert(tail =~= "_password"@); }
    if base == "passwd"@ { assert(tail =~= "_passwd"@); }
    if base == "token"@ { assert(tail =~= "_token"@); }
    if base == "api_key"@ { assert(tail =~= "_api_key"@); }
    if base == "apikey"@ { assert(tail =~= "_apikey"@); }
    if base == "authorization"@ { assert(tail =~= "_authorization"@); }
    if base == "cookie"@ { assert(tail =~= "_cookie"@); }
    if base == "private_key"@ { assert(tail =~= "_private_key"@); }
}

/// The name `base#k`.
pub open spec fn suffixed(base: Seq<char>, k: nat) -> Seq<char> {
    base + seq!['#'] + decimal(k)
}

/// The first `base#k`, counting `k` up from `k0`, that `used` lacks.
pub open spec fn free_suffix(base: Seq<char>, used: Seq<Seq<char>>, k: nat) -> Seq<char>
    decreases used.len() + 2 - k,
{
    if k > used.len() + 1 {
        suffixed(base, k)
    } else if !used.contains(suffixed(base, k)) {
        suffixed(base, k)
    } else {
        free_suffix(base, used, k + 1)
    }
}

/// The name a member gets in a redacted object: its redacted name, or,
/// when that name is already taken, the first free `name#k` with `k >= 1`.
pub open spec fn fresh_name(base: Seq<char>, used: Seq<Seq<char>>) -> Seq<char> {
    if used.contains(base) {
        free_suffix(base, used, 1)
    } else {
        base
    }
}

pub open spec fn names_of(entries: Seq<(String, JsonValue)>) -> Seq<Seq<char>> {
    entries.map_values(|e: (String, JsonValue)| e.0@)
}

/// `out` is the redaction of `v` under `secrets`: strings are redacted,
/// arrays and objects element by element, member names are redacted and
/// kept apart, and the value of a sensitive member becomes the marker.
pub open spec fn redacted_as(secrets: Seq<Seq<char>>, v: JsonValue, out: JsonValue) -> bool
    decreases v,
{
    match v {
        JsonValue::Null => out is Null,
        JsonValue::Bool(b) => out == JsonValue::Bool(b),
        JsonValue::Number(n) => out == JsonValue::Number(n),
        JsonValue::String(s) => out matches JsonValue::String(t) && t@ == redact_all(s@, secrets),
        JsonValue::Array(items) => match out {
            JsonValue::Array(outs) => items@.len() == outs@.len() && forall|i: int|
                0 <= i < items@.len() ==> redacted_as(secrets, #[trigger] items@[i], outs@[i]),
            _ => false,
        },
        JsonValue::Object(entries) => match out {
            JsonValue::Object(outs) => entries@.len() == outs@.len() && forall|i: int|
                #![trigger entries@[i]]
                0 <= i < entries@.len() ==> {
                    &&& outs@[i].0@ == fresh_name(
                        redact_all(entries@[i].0@, secrets),
                        names_of(outs@.take(i)),
                    )
                    &&& if is_sensitive_name(entries@[i].0@) {
                        outs@[i].1 matches JsonValue::String(t) && t@ == redacted_marker()
                    } else {
                        redacted_as(secrets, entries@[i].1, outs@[i].1)
                    }
                },
            _ => false,
        },
    }
}

/// Deterministic, pre-persistence redaction policy for structured payloads.
pub struct Redactor {
    profile_id: String,
    version: String,
    secrets: Vec<String>,
}

impl Redactor {
    /// The registered secrets, longest first.
    pub closed spec fn secret_list(&self) -> Seq<Seq<char>> {
        self.secrets@.map_values(|s: String| s@)
    }

    pub closed spec fn profile_id_view(&self) -> Seq<char> {
        self.profile_id@
    }

    pub closed spec fn version_view(&self) -> Seq<char> {
        self.version@
    }

    #[verifier::type_invariant]
    spec fn inv(&self) -> bool {
        secrets_wf(self.secret_list())
    }

    /// A policy with an explicit identity and no secrets yet.
    pub fn new(profile_id: &str, version: &str) -> (r: Result<Redactor, PongError>)
        ensures
            (profile_id@.len() == 0 || version@.len() == 0) <==> r is Err,
            r matches Err(e) ==> e matches PongError::InvalidInput(m) && m@
                == "redaction profile id and version must not be empty"@,
            r matches Ok(red) ==> red.profile_id_view() == profile_id@ && red.version_view()
                == version@ && red.secret_list() == Seq::<Seq<char>>::empty(),
    {
        if profile_id.is_empty() || version.is_empty() {
            return Err(
                PongError::InvalidInput(
                    text_of("redaction profile id and version must not be empty"),
                ),
            );
        }
        let r = Redactor {
            profile_id: text_of(profile_id),
            version: text_of(version),
            secrets: Vec::new(),
        };
        assert(r.secret_list() =~= Seq::<Seq<char>>::empty());
        Ok(r)
    }

    /// The default policy, `default` version `0.1`, with no secrets.
    pub fn default_policy() -> (r: Redactor)
        ensures
            r.profile_id_view() == "default"@,
            r.version_view() == "0.1"@,
            r.secret_list() == Seq::<Seq<char>>::empty(),
    {
        let r = Redactor { profile_id: text_of("default"), version: text_of("0.1"), secrets: Vec::new() };
        assert(r.secret_list() =~= Seq::<Seq<char>>::empty());
        r
    }

    fn has_secret(&self, secret: &str) -> (b: bool)
        ensures
            b == self.secret_list().contains(secret@),
    {
        let mut i: usize = 0;
        while i < self.secrets.len()
            invariant
                i <= self.secrets@.len(),
                forall|j: int| 0 <= j < i ==> self.secrets@[j]@ != secret@,
            decreases self.secrets@.len() - i,
        {
            if str_equal(self.secrets[i].as_str(), secret) {
                assert(self.secret_list()[i as int] == secret@);
                return true;
            }
            i = i + 1;
        }
        assert forall|j: int| 0 <= j < self.secret_list().len() implies self.secret_list()[j]
            != secret@ by {
            assert(self.secret_list()[j] == self.secrets@[j]@);
        }
        false
    }

    /// Register a secret of at least four bytes. Registering a secret that
    /// is already known changes nothing.
    pub fn register_secret(&mut self, secret: &str) -> (r: Result<(), PongError>)
        ensures
            r is Err <==> byte_len(secret@) < 4,
            r matches Err(e) ==> e matches PongError::InvalidInput(m) && m@
                == "registered secrets must contain at least four bytes"@,
            r is Err ==> final(self).secret_list() == old(self).secret_list(),
            r is Ok ==> final(self).secret_list() == if old(self).secret_list().contains(secret@) {
                old(self).secret_list()
            } else {
                insert_by_len(secret@, old(self).secret_list())
            },
            r is Ok ==> final(self).secret_list().contains(secret@),
            final(self).profile_id_view() == old(self).profile_id_view(),
            final(self).version_view() == old(self).version_view(),
    {
        proof {
            use_type_invariant(&*self);
            lemma_insert_by_len_contains(secret@, old(self).secret_list());
        }
        if byte_length(secret) < 4 {
            return Err(
                PongError::InvalidInput(text_of("registered secrets must contain at least four bytes")),
            );
        }
        if self.has_secret(secret) {
            return Ok(());
        }
        let ghost s = self.secret_list();
        let mut j: usize = 0;
        while j < self.secrets.len() && !(byte_length(self.secrets[j].as_str()) < byte_length(secret))
            invariant
                j <= self.secrets@.len(),
                s == self.secret_list(),
                forall|k: int| 0 <= k < j ==> byte_len(#[trigger] s[k]) >= byte_len(secret@),
            decreases self.secrets@.len() - j,
        {
            assert(s[j as int] == self.secrets@[j as int]@);
            j = j + 1;
        }
        proof {
            if j < s.len() {
                assert(s[j as int] == self.secrets@[j as int]@);
            }
            lemma_insert_by_len_at(secret@, s, j as int);
            lemma_insert_keeps_wf(secret@, s, j as int);
        }
        let owned = text_of(secret);
        let mut secrets: Vec<String> = Vec::new();
        std::mem::swap(&mut secrets, &mut self.secrets);
        secrets.insert(j, owned);
        assert(secrets@.map_values(|x: String| x@) =~= s.take(j as int).push(secret@) + s.skip(
            j as int,
        ));
        self.secrets = secrets;
        Ok(())
    }

    /// A second policy with the same identity and secrets.
    pub fn duplicate(&self) -> (r: Redactor)
        ensures
            r.profile_id_view() == self.profile_id_view(),
            r.version_view() == self.version_view(),
            r.secret_list() == self.secret_list(),
    {
        proof {
            use_type_invariant(self);
        }
        let mut secrets: Vec<String> = Vec::new();
        let mut i: usize = 0;
        while i < self.secrets.len()
            invariant
                i <= self.secrets@.len(),
                secrets@.len() == i,
                forall|k: int| 0 <= k < i ==> (#[trigger] secrets@[k])@ == self.secrets@[k]@,
            decreases self.secrets@.len() - i,
        {
            secrets.push(self.secrets[i].clone());
            i = i + 1;
        }
        assert(secrets@.map_values(|x: String| x@) =~= self.secret_list());
        Redactor { profile_id: self.profile_id.clone(), version: self.version.clone(), secrets }
    }

    pub fn profile_id(&self) -> (r: &str)
        ensures
            r@ == self.profile_id_view(),
    {
        self.profile_id.as_str()
    }

    pub fn version(&self) -> (r: &str)
        ensures
            r@ == self.version_view(),
    {
        self.version.as_str()
    }

    /// The policy identity, without any registered secret.
    pub fn profile(&self) -> (p: RedactionProfile)
        ensures
            p.id@ == self.profile_id_view(),
            p.version@ == self.version_view(),
    {
        RedactionProfile { id: self.profile_id.clone(), version: self.version.clone() }
    }

    /// Replace every registered secret in `value` by the marker.
    pub fn redact_text(&self, value: &str) -> (r: String)
        ensures
            r@ == redact_all(value@, self.secret_list()),
    {
        proof {
            use_type_invariant(self);
        }
        let mut current = chars_of(value);
        let marker = chars_of("[REDACTED]");
        let mut i: usize = 0;
        assert(self.secret_list().skip(0) =~= self.secret_list());
        while i < self.secrets.len()
            invariant
                i <= self.secrets@.len(),
                marker@ == redacted_marker(),
                secrets_wf(self.secret_list()),
                redact_all(value@, self.secret_list()) == redact_all(
                    current@,
                    self.secret_list().skip(i as int),
                ),
            decreases self.secrets@.len() - i,
        {
            let pat = chars_of(self.secrets[i].as_str());
            proof {
                assert(self.secret_list()[i as int] == pat@);
                assert(byte_len(pat@) >= 4);
                if pat@.len() == 0 {
                    assert(encode_utf8(pat@) =~= Seq::<u8>::empty());
                }
            }
            let next = replace_chars(current.as_slice(), pat.as_slice(), marker.as_slice());
            proof {
                let rest = self.secret_list().skip(i as int);
                assert(rest[0] == self.secrets@[i as int]@);
                assert(rest.drop_first() =~= self.secret_list().skip(i + 1));
            }
            current = next;
            i = i + 1;
        }
        assert(self.secret_list().skip(self.secrets@.len() as int) =~= Seq::<Seq<char>>::empty());
        string_from_chars(current.as_slice())
    }

    /// Whether some registered secret occurs as an exact UTF-8 byte
    /// sequence. The matching secret is never reported.
    pub fn contains_secret(&self, bytes: &[u8]) -> (b: bool)
        ensures
            b == bytes_hold_secret(bytes@, self.secret_list()),
    {
        let mut i: usize = 0;
        while i < self.secrets.len()
            invariant
                i <= self.secrets@.len(),
                forall|k: int| 0 <= k < i ==> !contains_seq(bytes@, encode_utf8(#[trigger] self.secret_list()[k])),
            decreases self.secrets@.len() - i,
        {
            let secret_bytes = self.secrets[i].as_str().as_bytes();
            assert(self.secret_list()[i as int] == self.secrets@[i as int]@);
            if bytes_contain(bytes, secret_bytes) {
                return true;
            }
            i = i + 1;
        }
        false
    }

    /// Fail closed when durable bytes still hold a configured secret; the
    /// error names only the caller's location label.
    pub fn assert_clean_bytes(&self, bytes: &[u8], location: &str) -> (r: Result<(), PongError>)
        ensures
            r is Ok <==> !bytes_hold_secret(bytes@, self.secret_list()),
            r matches Err(e) ==> e matches PongError::Integrity(m) && m@
                == "configured secret detected in persisted bytes at "@ + location@,
    {
        if self.contains_secret(bytes) {
            let mut message = chars_of("configured secret detected in persisted bytes at ");
            let loc = chars_of(location);
            append_chars(&mut message, loc.as_slice());
            return Err(PongError::Integrity(string_from_chars(message.as_slice())));
        }
        Ok(())
    }
}

proof fn lemma_insert_by_len_at(x: Seq<char>, s: Seq<Seq<char>>, j: int)
    requires
        0 <= j <= s.len(),
        forall|k: int| 0 <= k < j ==> byte_len(#[trigger] s[k]) >= byte_len(x),
        j < s.len() ==> byte_len(s[j]) < byte_len(x),
    ensures
        insert_by_len(x, s) == s.take(j).push(x) + s.skip(j),
    decreases j,
{
    if j == 0 {
        if s.len() == 0 {
            assert(s.take(0).push(x) + s.skip(0) =~= seq![x]);
        } else {
            assert(s.take(0).push(x) + s.skip(0) =~= seq![x] + s);
        }
    } else {
        let t = s.drop_first();
        assert forall|k: int| 0 <= k < j - 1 implies byte_len(#[trigger] t[k]) >= byte_len(x) by {
            assert(t[k] == s[k + 1]);
        }
        if j - 1 < t.len() {
            assert(t[j - 1] == s[j]);
        }
        lemma_insert_by_len_at(x, t, j - 1);
        assert(byte_len(s[0]) >= byte_len(x));
        assert(seq![s[0]] + (t.take(j - 1).push(x) + t.skip(j - 1)) =~= s.take(j).push(x) + s.skip(
            j,
        ));
    }
}

proof fn lemma_insert_keeps_wf(x: Seq<char>, s: Seq<Seq<char>>, j: int)
    requires
        secrets_wf(s),
        !s.contains(x),
        byte_len(x) >= 4,
        0 <= j <= s.len(),
        forall|k: int| 0 <= k < j ==> byte_len(#[trigger] s[k]) >= byte_len(x),
        j < s.len() ==> byte_len(s[j]) < byte_len(x),
    ensures
        secrets_wf(s.take(j).push(x) + s.skip(j)),
{
    let r = s.take(j).push(x) + s.skip(j);
    assert(r.len() == s.len() + 1);
    assert forall|a: int| 0 <= a < r.len() implies (a < j ==> r[a] == s[a]) && (a == j ==> r[a]
        == x) && (a > j ==> r[a] == s[a - 1]) by {
    }
    assert forall|a: int, b: int| 0 <= a < b < r.len() implies byte_len(#[trigger] r[b]) <= byte_len(
        #[trigger] r[a],
    ) by {
        if b == j {
            assert(r[a] == s[a]);
        } else if a == j {
            assert(r[b] == s[b - 1]);
            if j < s.len() {
                if b - 1 > j {
                    assert(byte_len(s[b - 1]) <= byte_len(s[j]));
                }
            }
        } else {
        }
    }
    assert forall|a: int, b: int| 0 <= a < r.len() && 0 <= b < r.len() && a != b implies r[a]
        != r[b] by {
        if a == j {
            assert(s.contains(r[b]) ==> r[b] != x);
            if b < j {
                assert(r[b] == s[b]);
            } else {
                assert(r[b] == s[b - 1]);
            }
        } else if b == j {
            if a < j {
                assert(r[a] == s[a]);
            } else {
                assert(r[a] == s[a - 1]);
            }
        } else {
        }
    }
}

/// The number of UTF-8 bytes of a text.
pub fn byte_length(s: &str) -> (n: usize)
    ensures
        n == byte_len(s@),
{
    s.as_bytes().len()
}

/// `s` with every non-overlapping occurrence of `pat` replaced by `rep`.
pub(crate) fn replace_chars(s: &[char], pat: &[char], rep: &[char]) -> (out: Vec<char>)
    requires
        pat@.len() > 0,
    ensures
        out@ == replace_all(s@, pat@, rep@),
{
    let mut out: Vec<char> = Vec::new();
    let mut i: usize = 0;
    assert(s@.skip(0) =~= s@);
    while i < s.len()
        invariant
            pat@.len() > 0,
            i <= s@.len(),
            out@ + replace_all(s@.skip(i as int), pat@, rep@) == replace_all(s@, pat@, rep@),
        decreases s@.len() - i,
    {
        let ghost t = s@.skip(i as int);
        if chars_occur_at(s, pat, i) {
            proof {
                assert(t.take(pat@.len() as int) =~= s@.subrange(i as int, i + pat@.len()));
                assert(t.skip(pat@.len() as int) =~= s@.skip(i + pat@.len()));
            }
            append_chars(&mut out, rep);
            i = i + pat.len();
        } else {
            proof {
                if t.len() >= pat@.len() {
                    assert(t.take(pat@.len() as int) =~= s@.subrange(i as int, i + pat@.len()));
                }
                assert(t.drop_first() =~= s@.skip(i + 1));
            }
            out.push(s[i]);
            i = i + 1;
        }
    }
    assert(s@.skip(i as int) =~= Seq::<char>::empty());
    out
}

} // verus!

verus! {

impl Default for Redactor {
    fn default() -> (r: Redactor)
        ensures
            r.profile_id_view() == "default"@,
            r.version_view() == "0.1"@,
            r.secret_list() == Seq::<Seq<char>>::empty(),
    {
        Redactor::default_policy()
    }
}

#[verifier::external_type_specification]
#[verifier::external_body]
pub struct ExFormatter<'a>(core::fmt::Formatter<'a>);

#[verifier::external_type_specification]
#[verifier::external_body]
pub struct ExFmtError(core::fmt::Error);

impl Redactor {
    /// The fields a diagnostic shows: the identity with secrets redacted,
    /// and how many secrets are registered.
    pub fn diagnostic_fields(&self) -> (r: (String, String, usize))
        ensures
            r.0@ == redact_all(self.profile_id_view(), self.secret_list()),
            r.1@ == redact_all(self.version_view(), self.secret_list()),
            r.2 == self.secret_list().len(),
    {
        (self.redact_text(self.profile_id.as_str()), self.redact_text(self.version.as_str()), self.secrets.len())
    }
}

/// The text a diagnostic shows of a redactor with this (already redacted)
/// identity and this many registered secrets.
pub open spec fn debug_text_of(profile_id: Seq<char>, version: Seq<char>, secret_count: nat) -> Seq<
    char,
> {
    "Redactor { profile_id: "@ + quoted(profile_id) + ", version: "@ + quoted(version)
        + ", secret_count: "@ + decimal(secret_count) + " }"@
}

impl Redactor {
    /// The diagnostic text of this redactor: its identity with secrets
    /// redacted and the number of registered secrets, never a secret itself.
    pub fn debug_text(&self) -> (r: String)
        ensures
            r@ == debug_text_of(
                redact_all(self.profile_id_view(), self.secret_list()),
                redact_all(self.version_view(), self.secret_list()),
                self.secret_list().len(),
            ),
    {
        let (profile_id, version, secret_count) = self.diagnostic_fields();
        let mut out = chars_of("Redactor { profile_id: ");
        let p = chars_of(profile_id.as_str());
        push_quoted(&mut out, p.as_slice());
        let a = chars_of(", version: ");
        append_chars(&mut out, a.as_slice());
        let v = chars_of(version.as_str());
        push_quoted(&mut out, v.as_slice());
        let b = chars_of(", secret_count: ");
        append_chars(&mut out, b.as_slice());
        let n = u64_decimal(secret_count as u64);
        append_chars(&mut out, n.as_slice());
        let c = chars_of(" }");
        append_chars(&mut out, c.as_slice());
        string_from_chars(out.as_slice())
    }
}

impl core::fmt::Debug for Redactor {
    fn fmt(&self, formatter: &mut core::fmt::Formatter<'_>) -> core::fmt::Result {
        let text = self.debug_text();
        write_text(formatter, text.as_str())
    }
}

/// `core::fmt::Formatter::write_str`: writes `text` to the formatter.
/// Nothing is stated of the outcome, which is the formatter's.
#[verifier::external_body]
fn write_text(formatter: &mut core::fmt::Formatter<'_>, text: &str) -> core::fmt::Result {
    formatter.write_str(text)
}

} // verus!

verus! {

proof fn lemma_decimal_len(n: nat)
    ensures
        n < 10 ==> decimal(n).len() == 1,
        n >= 10 ==> decimal(n).len() >= 2,
    decreases n,
{
    if n >= 10 {
        lemma_decimal_len(n / 10);
    }
}

proof fn lemma_digit_char_injective(d: int, e: int)
    requires
        0 <= d < 10,
        0 <= e < 10,
        crate::text::digit_char(d) == crate::text::digit_char(e),
    ensures
        d == e,
{
    assert((crate::text::digit_char(d) as u32) == 48 + d);
    assert((crate::text::digit_char(e) as u32) == 48 + e);
}

proof fn lemma_decimal_injective(a: nat, b: nat)
    requires
        decimal(a) == decimal(b),
    ensures
        a == b,
    decreases a,
{
    lemma_decimal_len(a);
    lemma_decimal_len(b);
    if a < 10 {
        assert(decimal(a) == seq![crate::text::digit_char(a as int)]);
        assert(decimal(b) == seq![crate::text::digit_char(b as int)]);
        assert(decimal(a)[0] == decimal(b)[0]);
        assert(seq![crate::text::digit_char(a as int)][0] == crate::text::digit_char(a as int));
        assert(seq![crate::text::digit_char(b as int)][0] == crate::text::digit_char(b as int));
        assert(crate::text::digit_char(a as int) == crate::text::digit_char(b as int));
        lemma_digit_char_injective(a as int, b as int);
    } else {
        assert(decimal(a) == decimal(a / 10).push(crate::text::digit_char((a % 10) as int)));
        assert(decimal(b) == decimal(b / 10).push(crate::text::digit_char((b % 10) as int)));
        assert(decimal(a).last() == decimal(b).last());
        assert(decimal(a).last() == crate::text::digit_char((a % 10) as int));
        assert(decimal(b).last() == crate::text::digit_char((b % 10) as int));
        assert(crate::text::digit_char((a % 10) as int) == crate::text::digit_char((b % 10) as int));
        lemma_digit_char_injective((a % 10) as int, (b % 10) as int);
        assert(decimal(a).drop_last() =~= decimal(a / 10));
        assert(decimal(b).drop_last() =~= decimal(b / 10));
        lemma_decimal_injective(a / 10, b / 10);
    }
}

proof fn lemma_suffixed_injective(base: Seq<char>, a: nat, b: nat)
    requires
        suffixed(base, a) == suffixed(base, b),
    ensures
        a == b,
{
    assert(suffixed(base, a).skip((base.len() + 1) as int) =~= decimal(a));
    assert(suffixed(base, b).skip((base.len() + 1) as int) =~= decimal(b));
    lemma_decimal_injective(a, b);
}

/// At most as many distinct suffixed names as `used` holds entries.
proof fn lemma_suffix_pigeonhole(base: Seq<char>, used: Seq<Seq<char>>, m: nat)
    requires
        forall|j: nat| 1 <= j <= m ==> used.contains(#[trigger] suffixed(base, j)),
    ensures
        m <= used.len(),
{
    broadcast use vstd::seq_lib::group_seq_properties;

    let cands = Seq::new(m, |i: int| suffixed(base, (i + 1) as nat));
    assert forall|a: int, b: int| 0 <= a < cands.len() && 0 <= b < cands.len() && a != b implies cands[a]
        != cands[b] by {
        if cands[a] == cands[b] {
            lemma_suffixed_injective(base, (a + 1) as nat, (b + 1) as nat);
        }
    }
    cands.unique_seq_to_set();
    assert forall|x: Seq<char>| cands.to_set().contains(x) implies used.to_set().contains(x) by {
        let i = choose|i: int| 0 <= i < cands.len() && cands[i] == x;
        assert(used.contains(suffixed(base, (i + 1) as nat)));
    }
    vstd::set_lib::lemma_len_subset(cands.to_set(), used.to_set());
    used.lemma_cardinality_of_set();
}

proof fn lemma_free_suffix_fresh(base: Seq<char>, used: Seq<Seq<char>>, k: nat)
    requires
        1 <= k,
        forall|j: nat| 1 <= j < k ==> used.contains(#[trigger] suffixed(base, j)),
    ensures
        !used.contains(free_suffix(base, used, k)),
    decreases used.len() + 2 - k,
{
    if k > used.len() + 1 {
        lemma_suffix_pigeonhole(base, used, (used.len() + 1) as nat);
    } else if used.contains(suffixed(base, k)) {
        lemma_free_suffix_fresh(base, used, k + 1);
    }
}

/// The name `fresh_name` gives is never one of the names already used.
pub proof fn lemma_fresh_name_is_fresh(base: Seq<char>, used: Seq<Seq<char>>)
    ensures
        !used.contains(fresh_name(base, used)),
{
    if used.contains(base) {
        lemma_free_suffix_fresh(base, used, 1);
    }
}

/// Redaction never merges members: the members of a redacted object have
/// pairwise distinct names, even where redacting their names made them
/// collide.
pub proof fn lemma_redacted_member_names_distinct(
    secrets: Seq<Seq<char>>,
    entries: Vec<(String, JsonValue)>,
    out: JsonValue,
)
    requires
        redacted_as(secrets, JsonValue::Object(entries), out),
    ensures
        out matches JsonValue::Object(outs) && forall|i: int, j: int|
            0 <= i < j < outs@.len() ==> (#[trigger] outs@[i]).0@ != (#[trigger] outs@[j]).0@,
{
    let outs = out->Object_0;
    assert forall|i: int, j: int| 0 <= i < j < outs@.len() implies (#[trigger] outs@[i]).0@
        != (#[trigger] outs@[j]).0@ by {
        let used = names_of(outs@.take(j));
        assert(entries@[j] == entries@[j]);
        lemma_fresh_name_is_fresh(redact_all(entries@[j].0@, secrets), used);
        assert(used[i] == outs@[i].0@);
        assert(used.contains(outs@[i].0@));
    }
}

fn names_contain(outs: &Vec<(String, JsonValue)>, name: &[char]) -> (b: bool)
    ensures
        b == names_of(outs@).contains(name@),
{
    let mut k: usize = 0;
    while k < outs.len()
        invariant
            k <= outs@.len(),
            forall|j: int| 0 <= j < k ==> outs@[j].0@ != name@,
        decreases outs@.len() - k,
    {
        let existing = chars_of(outs[k].0.as_str());
        if chars_equal(existing.as_slice(), name) {
            assert(names_of(outs@)[k as int] == name@);
            return true;
        }
        k = k + 1;
    }
    assert forall|j: int| 0 <= j < names_of(outs@).len() implies names_of(outs@)[j] != name@ by {
        assert(names_of(outs@)[j] == outs@[j].0@);
    }
    false
}

/// The name a member gets beside the members already redacted.
fn fresh_member_name(base: Vec<char>, outs: &Vec<(String, JsonValue)>) -> (r: String)
    requires
        outs@.len() < usize::MAX,
    ensures
        r@ == fresh_name(base@, names_of(outs@)),
{
    let ghost used = names_of(outs@);
    if !names_contain(outs, base.as_slice()) {
        return string_from_chars(base.as_slice());
    }
    let mut suffix: usize = 1;
    loop
        invariant
            1 <= suffix <= used.len() + 1,
            outs@.len() < usize::MAX,
            used == names_of(outs@),
            used.contains(base@),
            free_suffix(base@, used, 1) == free_suffix(base@, used, suffix as nat),
            forall|j: nat| 1 <= j < suffix ==> used.contains(#[trigger] suffixed(base@, j)),
        decreases used.len() + 1 - suffix,
    {
        let mut candidate = base.clone();
        candidate.push('#');
        let digits = u64_decimal(suffix as u64);
        append_chars(&mut candidate, digits.as_slice());
        assert(candidate@ =~= suffixed(base@, suffix as nat));
        if !names_contain(outs, candidate.as_slice()) {
            return string_from_chars(candidate.as_slice());
        }
        proof {
            assert forall|j: nat| 1 <= j <= suffix implies used.contains(#[trigger] suffixed(base@, j)) by {
            }
            lemma_suffix_pigeonhole(base@, used, suffix as nat);
        }
        suffix = suffix + 1;
    }
}

fn sensitive_part(n: &[char], part: &str, suffix: &str) -> (b: bool)
    ensures
        b == (n@ == part@ || ends_with(n@, suffix@)),
{
    let p = chars_of(part);
    let s = chars_of(suffix);
    chars_equal(n, p.as_slice()) || chars_end_with(n, s.as_slice())
}

/// A member name whose value is always replaced.
pub fn is_sensitive_key(key: &str) -> (b: bool)
    ensures
        b == is_sensitive_name(key@),
{
    let k = chars_of(key);
    let n = lower_chars(k.as_slice());
    let n = n.as_slice();
    sensitive_part(n, "secret", "_secret") || sensitive_part(n, "password", "_password")
        || sensitive_part(n, "passwd", "_passwd") || sensitive_part(n, "token", "_token")
        || sensitive_part(n, "api_key", "_api_key") || sensitive_part(n, "apikey", "_apikey")
        || sensitive_part(n, "authorization", "_authorization") || sensitive_part(
        n,
        "cookie",
        "_cookie",
    ) || sensitive_part(n, "private_key", "_private_key")
}

impl Redactor {
    /// Redact a structured value: strings and member names lose their
    /// secrets, sensitive members lose their values, and members whose
    /// redacted names collide are kept apart by a `#k` suffix.
    #[verifier::loop_isolation(false)]
    pub fn redact_value(&self, value: &JsonValue) -> (r: JsonValue)
        ensures
            redacted_as(self.secret_list(), *value, r),
        decreases value,
    {
        match value {
            JsonValue::Null => JsonValue::Null,
            JsonValue::Bool(b) => JsonValue::Bool(*b),
            JsonValue::Number(n) => JsonValue::Number(*n),
            JsonValue::String(s) => JsonValue::String(self.redact_text(s.as_str())),
            JsonValue::Array(items) => {
                let mut outs: Vec<JsonValue> = Vec::new();
                let mut i: usize = 0;
                while i < items.len()
                    invariant
                        i <= items@.len(),
                        outs@.len() == i,
                        forall|k: int|
                            0 <= k < i ==> redacted_as(
                                self.secret_list(),
                                #[trigger] items@[k],
                                outs@[k],
                            ),
                    decreases items@.len() - i,
                {
                    proof {
                        vstd::std_specs::vec::axiom_vec_index_decreases(*items, i as int);
                        assert(decreases_to!(*value => (*value)->Array_0));
                    }
                    let v = self.redact_value(&items[i]);
                    outs.push(v);
                    i = i + 1;
                }
                JsonValue::Array(outs)
            },
            JsonValue::Object(entries) => {
                let mut outs: Vec<(String, JsonValue)> = Vec::new();
                let mut i: usize = 0;
                while i < entries.len()
                    invariant
                        i <= entries@.len(),
                        outs@.len() == i,
                        forall|k: int|
                            #![trigger entries@[k]]
                            0 <= k < i ==> {
                                &&& outs@[k].0@ == fresh_name(
                                    redact_all(entries@[k].0@, self.secret_list()),
                                    names_of(outs@.take(k)),
                                )
                                &&& if is_sensitive_name(entries@[k].0@) {
                                    outs@[k].1 matches JsonValue::String(t) && t@
                                        == redacted_marker()
                                } else {
                                    redacted_as(self.secret_list(), entries@[k].1, outs@[k].1)
                                }
                            },
                    decreases entries@.len() - i,
                {
                    let base = self.redact_text(entries[i].0.as_str());
                    let base_chars = chars_of(base.as_str());
                    let name = fresh_member_name(base_chars, &outs);
                    let v = if is_sensitive_key(entries[i].0.as_str()) {
                        JsonValue::String(text_of("[REDACTED]"))
                    } else {
                        proof {
                            vstd::std_specs::vec::axiom_vec_index_decreases(*entries, i as int);
                            assert(decreases_to!(*value => (*value)->Object_0));
                        }
                        self.redact_value(&entries[i].1)
                    };
                    let ghost before = outs@;
                    outs.push((name, v));
                    proof {
                        assert(outs@.take(i as int) =~= before);
                        assert forall|k: int| 0 <= k < i implies outs@.take(k) =~= before.take(k) by {
                        }
                    }
                    i = i + 1;
                }
                JsonValue::Object(outs)
            },
        }
    }
}

} // verus!
