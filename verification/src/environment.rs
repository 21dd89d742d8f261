//! Safe, deterministic environment facts for workspace and Snapshot
//! metadata.
//!
//! Capture is allowlist-based. Host paths, user names, the process
//! environment as a whole, and secret-shaped keys and values are excluded
//! before a value reaches canonical encoding or storage.
use crate::canonical::{
    canonical_bytes, canonical_digest, canonical_encoding, canonical_text, join_members,
    lemma_member_texts_index, lemma_sort_pairs, member_texts, pairs_sorted, pairs_view, quoted, sort_by_name,
    sort_pairs,
};
use crate::cas::{digest_hex, digest_message, domain_is_valid, hex_lower, sha256, Digest};
use crate::error::{text_of, PongError};
use crate::json::JsonValue;
use crate::redaction::{redact_all, redacted_as, Redactor};
use crate::text::{
    chars_of, concat, contains_seq, is_ascii_alnum, is_blank, lemma_lower_seq_ignores_case, lower,
    lower_seq, same_ignoring_ascii_case, starts_with,
    str_equal, str_is_blank, string_from_chars,
};
use vstd::prelude::*;
use vstd::utf8::encode_utf8;

verus! {

broadcast use vstd::string::group_string_axioms;

pub const ENVIRONMENT_SCHEMA_VERSION: &'static str = "0.1";

/// The facts recorded about the environment a workspace runs in. A
/// capture holds each allowlisted name at most once, sorted by name.
#[derive(Debug, Clone, PartialEq, Eq)]
pub struct EnvironmentFacts {
    pub schema_version: String,
    pub os: String,
    pub architecture: String,
    pub family: String,
    pub variables: Vec<(String, String)>,
}

/// What reading one allowlisted variable from the host gave.
#[derive(Debug, Clone, PartialEq, Eq)]
pub enum EnvRead {
    /// The variable is not set.
    Unset,
    /// The variable is set but its value is not UTF-8.
    NotUtf8,
    /// The variable's value.
    Value(String),
    /// The variable was not read, because the key is never captured.
    Unread,
}

/// A stored environment row: its identity, project, fingerprint and the
/// canonical JSON of its facts.
#[derive(Debug, Clone, PartialEq, Eq)]
pub struct EnvironmentRecord {
    pub environment_id: String,
    pub project_id: String,
    pub fingerprint: String,
    pub facts_json: String,
    pub created_at: String,
}

/// An allowlist key: 1 to 128 ASCII alphanumerics or underscores.
pub open spec fn env_key_ok(key: Seq<char>) -> bool {
    &&& key.len() > 0
    &&& key.len() <= 128
    &&& forall|i: int| 0 <= i < key.len() ==> is_ascii_alnum(#[trigger] key[i]) || key[i] == '_'
}

pub fn validate_env_key(key: &str) -> (r: Result<(), PongError>)
    ensures
        r is Ok <==> env_key_ok(key@),
        r is Err ==> (r matches Err(PongError::InvalidInput(m)) && m@
            == "environment allowlist key is invalid"@),
{
    let chars = chars_of(key);
    let mut ok = chars.len() > 0 && chars.len() <= 128;
    let mut i: usize = 0;
    while i < chars.len()
        invariant
            chars@ == key@,
            i <= chars@.len(),
            ok == (chars@.len() > 0 && chars@.len() <= 128 && forall|k: int|
                0 <= k < i ==> is_ascii_alnum(#[trigger] chars@[k]) || chars@[k] == '_'),
        decreases chars@.len() - i,
    {
        let c = chars[i];
        if !(crate::text::is_ascii_alnum_char(c) || c == '_') {
            ok = false;
        }
        i = i + 1;
    }
    if !ok {
        return Err(PongError::InvalidInput(text_of("environment allowlist key is invalid")));
    }
    Ok(())
}

/// Key parts that mark a variable as secret-bearing, in any case.
pub open spec fn sensitive_env_key(key: Seq<char>) -> bool {
    let n = lower_seq(key);
    ||| contains_seq(n, "secret"@)
    ||| contains_seq(n, "password"@)
    ||| contains_seq(n, "passwd"@)
    ||| contains_seq(n, "token"@)
    ||| contains_seq(n, "api_key"@)
    ||| contains_seq(n, "apikey"@)
    ||| contains_seq(n, "authorization"@)
    ||| contains_seq(n, "cookie"@)
    ||| contains_seq(n, "private_key"@)
    ||| contains_seq(n, "credential"@)
}

fn contains_text(s: &[char], pat: &str) -> (r: bool)
    ensures
        r == contains_seq(s@, pat@),
{
    let p = chars_of(pat);
    crate::text::chars_contain(s, p.as_slice())
}

pub fn is_sensitive_key(key: &str) -> (r: bool)
    ensures
        r == sensitive_env_key(key@),
{
    let chars = chars_of(key);
    let n = crate::text::lower_chars(chars.as_slice());
    contains_text(n.as_slice(), "secret") || contains_text(n.as_slice(), "password")
        || contains_text(n.as_slice(), "passwd") || contains_text(n.as_slice(), "token")
        || contains_text(n.as_slice(), "api_key") || contains_text(n.as_slice(), "apikey")
        || contains_text(n.as_slice(), "authorization") || contains_text(n.as_slice(), "cookie")
        || contains_text(n.as_slice(), "private_key") || contains_text(
        n.as_slice(),
        "credential",
    )
}

/// ASCII upper case of one character.
pub open spec fn upper(c: char) -> char {
    if 97 <= (c as u32) && (c as u32) <= 122 {
        ((c as u32) - 32) as char
    } else {
        c
    }
}

pub open spec fn upper_seq(s: Seq<char>) -> Seq<char> {
    Seq::new(s.len(), |i: int| upper(s[i]))
}

fn upper_chars(s: &[char]) -> (r: Vec<char>)
    ensures
        r@ == upper_seq(s@),
{
    let mut out: Vec<char> = Vec::new();
    let mut i: usize = 0;
    while i < s.len()
        invariant
            i <= s@.len(),
            out@ == upper_seq(s@).take(i as int),
        decreases s@.len() - i,
    {
        let c = s[i];
        let u = c as u32;
        let d = if 97 <= u && u <= 122 {
            ((u - 32) as u8) as char
        } else {
            c
        };
        out.push(d);
        i = i + 1;
        assert(out@ =~= upper_seq(s@).take(i as int));
    }
    assert(upper_seq(s@).take(s@.len() as int) =~= upper_seq(s@));
    out
}

/// Keys that name the host or the user: anything with `PATH`, the home,
/// user, working and temporary directory and host names, and the `SSH_`
/// and `XDG_` families, in any case.
pub open spec fn host_identity_key(key: Seq<char>) -> bool {
    let n = upper_seq(key);
    ||| contains_seq(n, "PATH"@)
    ||| n == "HOME"@
    ||| n == "USER"@
    ||| n == "USERNAME"@
    ||| n == "USERPROFILE"@
    ||| n == "PWD"@
    ||| n == "OLDPWD"@
    ||| n == "TMP"@
    ||| n == "TEMP"@
    ||| n == "TMPDIR"@
    ||| n == "HOST"@
    ||| n == "HOSTNAME"@
    ||| n == "COMPUTERNAME"@
    ||| starts_with(n, "SSH_"@)
    ||| starts_with(n, "XDG_"@)
}

/// Texts that differ only in the case of ASCII letters raise alike.
pub proof fn lemma_upper_seq_ignores_case(a: Seq<char>, b: Seq<char>)
    requires
        same_ignoring_ascii_case(a, b),
    ensures
        upper_seq(a) == upper_seq(b),
{
    assert forall|k: int| 0 <= k < a.len() implies upper(a[k]) == upper(b[k]) by {
        if a[k] != b[k] {
            if 65 <= (a[k] as u32) <= 90 {
                vstd::utf8::char_u32_cast(a[k], a[k] as u32);
                assert(((b[k] as u32) - 32) as char == a[k]);
            } else {
                vstd::utf8::char_u32_cast(b[k], b[k] as u32);
                assert(((a[k] as u32) - 32) as char == b[k]);
            }
        }
    }
    assert(upper_seq(a) =~= upper_seq(b));
}

/// Which keys are excluded as secret-bearing, or as naming the host or
/// user, and which values look like secrets, does not depend on the ASCII
/// case of the key or value.
pub proof fn lemma_exclusions_ignore_case(a: Seq<char>, b: Seq<char>)
    requires
        same_ignoring_ascii_case(a, b),
    ensures
        sensitive_env_key(a) == sensitive_env_key(b),
        host_identity_key(a) == host_identity_key(b),
        secret_like(a) == secret_like(b),
{
    lemma_lower_seq_ignores_case(a, b);
    lemma_upper_seq_ignores_case(a, b);
    assert forall|i: int| 0 <= i < a.len() implies token_char(a[i]) == token_char(b[i]) by {
        assert(a[i] == b[i] || (65 <= (a[i] as u32) <= 90 && (b[i] as u32) == (a[i] as u32) + 32) || (
        65 <= (b[i] as u32) <= 90 && (a[i] as u32) == (b[i] as u32) + 32));
    }
}

proof fn lemma_lower_of_join(p: Seq<char>, x: Seq<char>, s: Seq<char>)
    ensures
        lower_seq(p + x + s) == lower_seq(p) + lower_seq(x) + lower_seq(s),
{
    assert(lower_seq(p + x + s) =~= lower_seq(p) + lower_seq(x) + lower_seq(s));
}

/// Every key that holds one of the secret-bearing parts (`secret`,
/// `password`, `passwd`, `token`, `api_key`, `apikey`, `authorization`,
/// `cookie`, `private_key`, `credential`), in any case and anywhere in it,
/// is excluded from capture.
pub proof fn lemma_secret_bearing_keys_are_never_read(
    before: Seq<char>,
    part: Seq<char>,
    written: Seq<char>,
    after: Seq<char>,
)
    requires
        part == "secret"@ || part == "password"@ || part == "passwd"@ || part == "token"@ || part
            == "api_key"@ || part == "apikey"@ || part == "authorization"@ || part == "cookie"@
            || part == "private_key"@ || part == "credential"@,
        same_ignoring_ascii_case(written, part),
    ensures
        sensitive_env_key(before + written + after),
        !env_key_readable(before + written + after),
{
    reveal_strlit("secret");
    reveal_strlit("password");
    reveal_strlit("passwd");
    reveal_strlit("token");
    reveal_strlit("api_key");
    reveal_strlit("apikey");
    reveal_strlit("authorization");
    reveal_strlit("cookie");
    reveal_strlit("private_key");
    reveal_strlit("credential");
    lemma_lower_seq_ignores_case(written, part);
    assert(lower_seq(part) =~= part) by {
        assert forall|i: int| 0 <= i < part.len() implies lower(part[i]) == part[i] by {
            assert(part[i] as u32 >= 95);
        }
    }
    let key = before + written + after;
    lemma_lower_of_join(before, written, after);
    let n = lower_seq(key);
    let at = before.len() as int;
    assert(n.subrange(at, at + part.len()) =~= part);
    assert(crate::text::occurs_at(n, part, at));
}

fn is_text(s: &[char], t: &str) -> (r: bool)
    ensures
        r == (s@ == t@),
{
    let u = chars_of(t);
    crate::text::chars_equal(s, u.as_slice())
}

fn starts_with_text(s: &[char], t: &str) -> (r: bool)
    ensures
        r == starts_with(s@, t@),
{
    let u = chars_of(t);
    crate::text::chars_start_with(s, u.as_slice())
}

pub fn is_host_identity_key(key: &str) -> (r: bool)
    ensures
        r == host_identity_key(key@),
{
    let chars = chars_of(key);
    let n = upper_chars(chars.as_slice());
    let s = n.as_slice();
    contains_text(s, "PATH") || is_text(s, "HOME") || is_text(s, "USER") || is_text(s, "USERNAME")
        || is_text(s, "USERPROFILE") || is_text(s, "PWD") || is_text(s, "OLDPWD") || is_text(
        s,
        "TMP",
    ) || is_text(s, "TEMP") || is_text(s, "TMPDIR") || is_text(s, "HOST") || is_text(
        s,
        "HOSTNAME",
    ) || is_text(s, "COMPUTERNAME") || starts_with_text(s, "SSH_") || starts_with_text(s, "XDG_")
}

/// A character of a token-shaped value.
pub open spec fn token_char(c: char) -> bool {
    is_ascii_alnum(c) || c == '-' || c == '_' || c == '.' || c == '/' || c == '+' || c == '='
}

/// A value that looks like an unregistered secret: a known token prefix in
/// any case, or 32 or more token characters.
pub open spec fn secret_like(value: Seq<char>) -> bool {
    let l = lower_seq(value);
    ||| starts_with(l, "sk-"@)
    ||| starts_with(l, "ghp_"@)
    ||| starts_with(l, "xoxb-"@)
    ||| starts_with(l, "bearer "@)
    ||| (value.len() >= 32 && forall|i: int| 0 <= i < value.len() ==> token_char(#[trigger] value[i]))
}

pub fn looks_secret_like(value: &str) -> (r: bool)
    ensures
        r == secret_like(value@),
{
    let chars = chars_of(value);
    let l = crate::text::lower_chars(chars.as_slice());
    if starts_with_text(l.as_slice(), "sk-") || starts_with_text(l.as_slice(), "ghp_")
        || starts_with_text(l.as_slice(), "xoxb-") || starts_with_text(l.as_slice(), "bearer ") {
        return true;
    }
    if chars.len() < 32 {
        return false;
    }
    let mut i: usize = 0;
    while i < chars.len()
        invariant
            chars@ == value@,
            i <= chars@.len(),
            !starts_with(lower_seq(value@), "sk-"@),
            !starts_with(lower_seq(value@), "ghp_"@),
            !starts_with(lower_seq(value@), "xoxb-"@),
            !starts_with(lower_seq(value@), "bearer "@),
            forall|k: int| 0 <= k < i ==> token_char(#[trigger] chars@[k]),
        decreases chars@.len() - i,
    {
        let c = chars[i];
        if !(crate::text::is_ascii_alnum_char(c) || c == '-' || c == '_' || c == '.' || c == '/'
            || c == '+' || c == '=') {
            assert(!token_char(value@[i as int]));
            return false;
        }
        i = i + 1;
    }
    true
}

/// A key is read from the host only when it is valid and not excluded.
pub open spec fn env_key_readable(key: Seq<char>) -> bool {
    env_key_ok(key) && !sensitive_env_key(key) && !host_identity_key(key)
}

pub fn env_key_is_readable(key: &str) -> (r: bool)
    ensures
        r == env_key_readable(key@),
{
    validate_env_key(key).is_ok() && !is_sensitive_key(key) && !is_host_identity_key(key)
}

/// Set `key` to `value`: the value of an existing name is replaced in
/// place, a new name is appended.
pub open spec fn upsert(vars: Seq<(Seq<char>, Seq<char>)>, key: Seq<char>, value: Seq<char>) -> Seq<
    (Seq<char>, Seq<char>),
>
    decreases vars.len(),
{
    if vars.len() == 0 {
        seq![(key, value)]
    } else if vars[0].0 == key {
        seq![(key, value)] + vars.drop_first()
    } else {
        seq![vars[0]] + upsert(vars.drop_first(), key, value)
    }
}

/// The variables captured from the first `n` allowlist keys, or the
/// message of the failure that stops the capture.
pub open spec fn capture_upto(
    secrets: Seq<Seq<char>>,
    entries: Seq<(String, EnvRead)>,
    n: nat,
) -> Result<Seq<(Seq<char>, Seq<char>)>, Seq<char>>
    decreases n,
{
    if n == 0 {
        Ok(Seq::empty())
    } else {
        match capture_upto(secrets, entries, (n - 1) as nat) {
            Err(m) => Err(m),
            Ok(acc) => {
                let key = entries[n - 1].0@;
                if !env_key_ok(key) {
                    Err("environment allowlist key is invalid"@)
                } else if sensitive_env_key(key) || host_identity_key(key) {
                    Ok(acc)
                } else {
                    match entries[n - 1].1 {
                        EnvRead::NotUtf8 => Err("allowlisted environment value is not UTF-8"@),
                        EnvRead::Value(v) => {
                            let redacted = redact_all(v@, secrets);
                            if secret_like(redacted) {
                                Ok(acc)
                            } else {
                                Ok(upsert(acc, key, redacted))
                            }
                        },
                        _ => Ok(acc),
                    }
                }
            },
        }
    }
}

/// No two variables share a name.
pub open spec fn var_names_distinct(vars: Seq<(Seq<char>, Seq<char>)>) -> bool {
    forall|i: int, j: int|
        0 <= i < vars.len() && 0 <= j < vars.len() && i != j ==> #[trigger] vars[i].0
            != #[trigger] vars[j].0
}

proof fn lemma_upsert_names(vars: Seq<(Seq<char>, Seq<char>)>, key: Seq<char>, value: Seq<char>)
    requires
        var_names_distinct(vars),
    ensures
        var_names_distinct(upsert(vars, key, value)),
        forall|i: int|
            0 <= i < upsert(vars, key, value).len() ==> (#[trigger] upsert(vars, key, value)[i]).0
                == key || exists|j: int| 0 <= j < vars.len() && vars[j].0 == upsert(vars, key, value)[i].0,
    decreases vars.len(),
{
    let u = upsert(vars, key, value);
    if vars.len() == 0 {
    } else if vars[0].0 == key {
        assert forall|i: int| 0 <= i < u.len() implies (#[trigger] u[i]).0 == key || exists|j: int|
            0 <= j < vars.len() && vars[j].0 == u[i].0 by {
            if i > 0 {
                assert(u[i] == vars[i]);
            }
        }
        assert forall|i: int, j: int| 0 <= i < u.len() && 0 <= j < u.len() && i != j implies #[trigger] u[i].0
            != #[trigger] u[j].0 by {
            if i > 0 {
                assert(u[i] == vars[i]);
            }
            if j > 0 {
                assert(u[j] == vars[j]);
            }
        }
    } else {
        let rest = vars.drop_first();
        assert(var_names_distinct(rest)) by {
            assert forall|i: int, j: int| 0 <= i < rest.len() && 0 <= j < rest.len() && i != j implies #[trigger] rest[i].0
                != #[trigger] rest[j].0 by {
                assert(rest[i] == vars[i + 1] && rest[j] == vars[j + 1]);
            }
        }
        lemma_upsert_names(rest, key, value);
        let ur = upsert(rest, key, value);
        assert(u == seq![vars[0]] + ur);
        assert forall|i: int| 0 <= i < u.len() implies (#[trigger] u[i]).0 == key || exists|j: int|
            0 <= j < vars.len() && vars[j].0 == u[i].0 by {
            if i == 0 {
                assert(vars[0].0 == u[0].0);
            } else {
                assert(u[i] == ur[i - 1]);
                if ur[i - 1].0 != key {
                    let j = choose|j: int| 0 <= j < rest.len() && rest[j].0 == ur[i - 1].0;
                    assert(vars[j + 1].0 == u[i].0);
                }
            }
        }
        assert forall|i: int, j: int| 0 <= i < u.len() && 0 <= j < u.len() && i != j implies #[trigger] u[i].0
            != #[trigger] u[j].0 by {
            if i == 0 && j > 0 {
                assert(u[j] == ur[j - 1]);
                if ur[j - 1].0 != key {
                    let k = choose|k: int| 0 <= k < rest.len() && rest[k].0 == ur[j - 1].0;
                    assert(rest[k] == vars[k + 1]);
                }
            } else if j == 0 && i > 0 {
                assert(u[i] == ur[i - 1]);
                if ur[i - 1].0 != key {
                    let k = choose|k: int| 0 <= k < rest.len() && rest[k].0 == ur[i - 1].0;
                    assert(rest[k] == vars[k + 1]);
                }
            } else if i > 0 && j > 0 {
                assert(u[i] == ur[i - 1] && u[j] == ur[j - 1]);
            }
        }
    }
}

proof fn lemma_capture_names_distinct(secrets: Seq<Seq<char>>, entries: Seq<(String, EnvRead)>, n: nat)
    ensures
        capture_upto(secrets, entries, n) matches Ok(vars) ==> var_names_distinct(vars),
    decreases n,
{
    if n > 0 {
        lemma_capture_names_distinct(secrets, entries, (n - 1) as nat);
        match capture_upto(secrets, entries, (n - 1) as nat) {
            Ok(acc) => {
                let key = entries[n - 1].0@;
                match entries[n - 1].1 {
                    EnvRead::Value(v) => {
                        lemma_upsert_names(acc, key, redact_all(v@, secrets));
                    },
                    _ => {},
                }
            },
            Err(_) => {},
        }
    }
}

pub open spec fn vars_view(vars: Seq<(String, String)>) -> Seq<(Seq<char>, Seq<char>)> {
    vars.map_values(|p: (String, String)| (p.0@, p.1@))
}

fn upsert_var(vars: &mut Vec<(String, String)>, key: &str, value: String)
    ensures
        vars_view(final(vars)@) == upsert(vars_view(old(vars)@), key@, value@),
{
    let ghost v0 = vars_view(vars@);
    let mut i: usize = 0;
    assert(v0.skip(0) =~= v0);
    assert(v0.take(0) + upsert(v0, key@, value@) =~= upsert(v0, key@, value@));
    while i < vars.len() && !str_equal(vars[i].0.as_str(), key)
        invariant
            i <= vars@.len(),
            vars_view(vars@) == v0,
            upsert(v0, key@, value@) == v0.take(i as int) + upsert(v0.skip(i as int), key@, value@),
            forall|k: int| 0 <= k < i ==> v0[k].0 != key@,
        decreases vars@.len() - i,
    {
        let ghost rest = v0.skip(i as int);
        assert(rest[0] == (vars@[i as int].0@, vars@[i as int].1@));
        assert(rest.drop_first() =~= v0.skip(i + 1));
        assert(v0.take(i + 1) =~= v0.take(i as int).push(rest[0]));
        assert(v0.take(i as int) + upsert(rest, key@, value@) =~= v0.take(i + 1) + upsert(
            v0.skip(i + 1),
            key@,
            value@,
        ));
        i = i + 1;
    }
    if i < vars.len() {
        let ghost rest = v0.skip(i as int);
        assert(rest[0].0 == key@);
        assert(upsert(rest, key@, value@) == seq![(key@, value@)] + rest.drop_first());
        let k = vars[i].0.clone();
        vars.set(i, (k, value));
        assert(vars_view(vars@) =~= v0.take(i as int) + (seq![(key@, value@)] + rest.drop_first()));
    } else {
        assert(v0.skip(i as int) =~= Seq::<(Seq<char>, Seq<char>)>::empty());
        assert(v0.take(i as int) =~= v0);
        vars.push((text_of(key), value));
        assert(vars_view(vars@) =~= v0 + seq![(key@, value@)]);
    }
}

proof fn lemma_capture_error_stays(
    secrets: Seq<Seq<char>>,
    entries: Seq<(String, EnvRead)>,
    n: nat,
    m: nat,
)
    requires
        n <= m,
        capture_upto(secrets, entries, n) is Err,
    ensures
        capture_upto(secrets, entries, m) == capture_upto(secrets, entries, n),
    decreases m - n,
{
    if n < m {
        lemma_capture_error_stays(secrets, entries, n, (m - 1) as nat);
    }
}

impl EnvironmentFacts {
    /// Capture the allowlisted variables. Each entry pairs an allowlist key
    /// with what the host read for it (hosts read only keys that
    /// `env_key_is_readable` accepts); each key is checked in order,
    /// excluded keys are skipped, values are redacted, and a value that
    /// still looks like a secret is left out.
    pub fn capture(
        redactor: &Redactor,
        allowlist: &Vec<(String, EnvRead)>,
        os: &str,
        architecture: &str,
        family: &str,
    ) -> (r: Result<EnvironmentFacts, PongError>)
        ensures
            match capture_upto(redactor.secret_list(), allowlist@, allowlist@.len() as nat) {
                Ok(vars) => r matches Ok(f) && vars_view(f.variables@) == sort_pairs(vars)
                    && pairs_sorted(vars_view(f.variables@))
                    && vars_view(f.variables@).to_multiset() == vars.to_multiset()
                    && f.schema_version@ == ENVIRONMENT_SCHEMA_VERSION@ && f.os@ == os@
                    && f.architecture@ == architecture@ && f.family@ == family@,
                Err(m) => r matches Err(PongError::InvalidInput(t)) && t@ == m,
            },
    {
        let mut variables: Vec<(String, String)> = Vec::new();
        let mut i: usize = 0;
        assert(vars_view(variables@) =~= Seq::<(Seq<char>, Seq<char>)>::empty());
        while i < allowlist.len()
            invariant
                i <= allowlist@.len(),
                capture_upto(redactor.secret_list(), allowlist@, i as nat) == Ok::<
                    Seq<(Seq<char>, Seq<char>)>,
                    Seq<char>,
                >(vars_view(variables@)),
            decreases allowlist@.len() - i,
        {
            let key = allowlist[i].0.as_str();
            if validate_env_key(key).is_err() {
                proof {
                    lemma_capture_error_stays(
                        redactor.secret_list(),
                        allowlist@,
                        (i + 1) as nat,
                        allowlist@.len() as nat,
                    );
                }
                return Err(PongError::InvalidInput(text_of("environment allowlist key is invalid")));
            }
            if !is_sensitive_key(key) && !is_host_identity_key(key) {
                match &allowlist[i].1 {
                    EnvRead::NotUtf8 => {
                        proof {
                            lemma_capture_error_stays(
                                redactor.secret_list(),
                                allowlist@,
                                (i + 1) as nat,
                                allowlist@.len() as nat,
                            );
                        }
                        return Err(
                            PongError::InvalidInput(
                                text_of("allowlisted environment value is not UTF-8"),
                            ),
                        );
                    },
                    EnvRead::Value(v) => {
                        let redacted = redactor.redact_text(v.as_str());
                        if !looks_secret_like(redacted.as_str()) {
                            upsert_var(&mut variables, key, redacted);
                        }
                    },
                    _ => {},
                }
            }
            i = i + 1;
        }
        let ghost captured = vars_view(variables@);
        proof {
            lemma_capture_names_distinct(redactor.secret_list(), allowlist@, allowlist@.len() as nat);
            lemma_sort_pairs(captured);
        }
        let mut pairs: Vec<(Vec<char>, Vec<char>)> = Vec::new();
        let mut k: usize = 0;
        while k < variables.len()
            invariant
                k <= variables@.len(),
                pairs@.len() == k,
                pairs_view(pairs@) == vars_view(variables@).take(k as int),
            decreases variables@.len() - k,
        {
            let name = chars_of(variables[k].0.as_str());
            let value = chars_of(variables[k].1.as_str());
            let ghost before = pairs@;
            pairs.push((name, value));
            k = k + 1;
            assert forall|t: int| 0 <= t < k implies #[trigger] pairs_view(pairs@)[t] == vars_view(
                variables@,
            ).take(k as int)[t] by {
                if t < k - 1 {
                    assert(pairs@[t] == before[t]);
                    assert(pairs_view(before)[t] == vars_view(variables@).take(k - 1)[t]);
                }
            }
            assert(pairs_view(pairs@) =~= vars_view(variables@).take(k as int));
        }
        assert(vars_view(variables@).take(variables@.len() as int) =~= captured);
        let sorted = sort_by_name(pairs);
        let mut out: Vec<(String, String)> = Vec::new();
        let mut m: usize = 0;
        while m < sorted.len()
            invariant
                m <= sorted@.len(),
                out@.len() == m,
                vars_view(out@) == pairs_view(sorted@).take(m as int),
            decreases sorted@.len() - m,
        {
            let name = string_from_chars(sorted[m].0.as_slice());
            let value = string_from_chars(sorted[m].1.as_slice());
            let ghost before = out@;
            out.push((name, value));
            m = m + 1;
            assert forall|t: int| 0 <= t < m implies #[trigger] vars_view(out@)[t] == pairs_view(
                sorted@,
            ).take(m as int)[t] by {
                if t < m - 1 {
                    assert(out@[t] == before[t]);
                    assert(vars_view(before)[t] == pairs_view(sorted@).take(m - 1)[t]);
                }
            }
            assert(vars_view(out@) =~= pairs_view(sorted@).take(m as int));
        }
        assert(pairs_view(sorted@).take(sorted@.len() as int) =~= pairs_view(sorted@));
        Ok(
            EnvironmentFacts {
                schema_version: text_of(ENVIRONMENT_SCHEMA_VERSION),
                os: text_of(os),
                architecture: text_of(architecture),
                family: text_of(family),
                variables: out,
            },
        )
    }

    /// The facts as a JSON object of their five fields, the variables as an
    /// object of texts.
    pub fn to_value(&self) -> (r: Result<JsonValue, PongError>)
        ensures
            r matches Ok(v) && facts_value(*self, v),
    {
        let mut vars: Vec<(String, JsonValue)> = Vec::new();
        let mut i: usize = 0;
        while i < self.variables.len()
            invariant
                i <= self.variables@.len(),
                vars@.len() == i,
                forall|k: int|
                    0 <= k < i ==> (#[trigger] vars@[k]).0@ == self.variables@[k].0@ && is_text_value(
                        vars@[k].1,
                        self.variables@[k].1@,
                    ),
            decreases self.variables@.len() - i,
        {
            vars.push(
                (self.variables[i].0.clone(), JsonValue::text(self.variables[i].1.as_str())),
            );
            i = i + 1;
        }
        let mut members: Vec<(String, JsonValue)> = Vec::new();
        members.push((text_of("schema_version"), JsonValue::text(self.schema_version.as_str())));
        members.push((text_of("os"), JsonValue::text(self.os.as_str())));
        members.push((text_of("architecture"), JsonValue::text(self.architecture.as_str())));
        members.push((text_of("family"), JsonValue::text(self.family.as_str())));
        members.push((text_of("variables"), JsonValue::Object(vars)));
        Ok(JsonValue::Object(members))
    }

    /// The canonical bytes of the facts.
    pub fn canonical_bytes(&self) -> (r: Result<Vec<u8>, PongError>)
        ensures
            r matches Ok(b) && exists|v: JsonValue| facts_value(*self, v) && b@ == canonical_encoding(v),
            r matches Ok(b) && b@ == facts_encoding(*self),
    {
        let value = self.to_value()?;
        proof {
            lemma_facts_value_encoding(*self, value);
        }
        canonical_bytes(&value)
    }

    /// The identity of the facts: their canonical digest under
    /// `environment/v1`.
    pub fn fingerprint(&self) -> (r: Result<Digest, PongError>)
        ensures
            r matches Ok(d) && exists|v: JsonValue|
                facts_value(*self, v) && d.bytes_view() == sha256(
                    digest_message("environment/v1"@, canonical_encoding(v)),
                ),
            r matches Ok(d) && d.bytes_view() == sha256(
                digest_message("environment/v1"@, facts_encoding(*self)),
            ),
    {
        let value = self.to_value()?;
        proof {
            reveal_strlit("environment/v1");
            assert(domain_is_valid("environment/v1"@));
            lemma_facts_value_encoding(*self, value);
        }
        canonical_digest("environment/v1", &value)
    }

    /// The environment row to store for these facts under
    /// `environment_id`, given the row already stored under that identity:
    /// identities must be non-blank and free of NUL; identities and facts
    /// are redacted; a stored row must hold the same project, fingerprint
    /// and facts, and is then answered as it is.
    pub fn persist(
        &self,
        redactor: &Redactor,
        environment_id: &str,
        project_id: &str,
        created_at: &str,
        existing: &Option<EnvironmentRecord>,
    ) -> (r: Result<EnvironmentRecord, PongError>)
        ensures
            (is_blank(environment_id@) || environment_id@.contains('\0')) ==> (r matches Err(
                PongError::InvalidInput(m),
            ) && m@ == "environment id"@ + " is invalid"@),
            !(is_blank(environment_id@) || environment_id@.contains('\0')) && (is_blank(
                project_id@,
            ) || project_id@.contains('\0')) ==> (r matches Err(PongError::InvalidInput(m)) && m@
                == "project id"@ + " is invalid"@),
            (!(is_blank(environment_id@) || environment_id@.contains('\0')) && !(is_blank(
                project_id@,
            ) || project_id@.contains('\0'))) ==> exists|v: JsonValue, w: JsonValue|
                #![trigger facts_value(*self, v), redacted_as(redactor.secret_list(), v, w)]
                {
                    let secrets = redactor.secret_list();
                    let json = crate::canonical::canonical_text(w);
                    let fingerprint = "sha256:"@ + hex_lower(
                        sha256(digest_message("environment/v1"@, encode_utf8(json))),
                    );
                    &&& facts_value(*self, v)
                    &&& redacted_as(secrets, v, w)
                    &&& match *existing {
                        None => r matches Ok(rec) && rec.environment_id@ == redact_all(
                            environment_id@,
                            secrets,
                        ) && rec.project_id@ == redact_all(project_id@, secrets) && rec.facts_json@
                            == json && rec.fingerprint@ == fingerprint && rec.created_at@
                            == redact_all(created_at@, secrets),
                        Some(e) => if e.project_id@ == redact_all(project_id@, secrets)
                            && e.fingerprint@ == fingerprint && e.facts_json@ == json {
                            r == Ok::<EnvironmentRecord, PongError>(e)
                        } else {
                            r matches Err(PongError::Integrity(m)) && m@
                                == "environment identity was reused with different facts"@
                        },
                    }
                },
            r matches Err(PongError::Integrity(m)) ==> m@
                == "environment identity was reused with different facts"@,
    {
        validate_identity(environment_id, "environment id")?;
        validate_identity(project_id, "project id")?;
        let environment_id = redactor.redact_text(environment_id);
        let project_id = redactor.redact_text(project_id);
        let value = self.to_value()?;
        let facts = redactor.redact_value(&value);
        let bytes = canonical_bytes(&facts)?;
        proof {
            vstd::utf8::encode_utf8_valid_utf8(crate::canonical::canonical_text(facts));
            vstd::utf8::encode_utf8_decode_utf8(crate::canonical::canonical_text(facts));
        }
        let facts_json = match crate::remote_client::utf8_text(bytes.as_slice()) {
            Some(text) => text,
            None => {
                return Err(
                    PongError::Serialization(text_of("canonical environment facts are not UTF-8")),
                );
            },
        };
        let hex = digest_hex("environment/v1", facts_json.as_str().as_bytes());
        let fingerprint = concat("sha256:", hex.as_str());
        let created_at = redactor.redact_text(created_at);
        proof {
            assert(facts_value(*self, value));
            assert(redacted_as(redactor.secret_list(), value, facts));
            assert(facts_json@ == crate::canonical::canonical_text(facts));
            assert(encode_utf8(facts_json@) == canonical_encoding(facts));
            assert(fingerprint@ == "sha256:"@ + hex_lower(
                sha256(digest_message("environment/v1"@, canonical_encoding(facts))),
            ));
        }
        let ghost w = facts;
        match existing {
            Some(e) => {
                if !str_equal(e.project_id.as_str(), project_id.as_str()) || !str_equal(
                    e.fingerprint.as_str(),
                    fingerprint.as_str(),
                ) || !str_equal(e.facts_json.as_str(), facts_json.as_str()) {
                    return Err(
                        PongError::Integrity(
                            text_of("environment identity was reused with different facts"),
                        ),
                    );
                }
                Ok(
                    EnvironmentRecord {
                        environment_id: e.environment_id.clone(),
                        project_id: e.project_id.clone(),
                        fingerprint: e.fingerprint.clone(),
                        facts_json: e.facts_json.clone(),
                        created_at: e.created_at.clone(),
                    },
                )
            },
            None => Ok(EnvironmentRecord { environment_id, project_id, fingerprint, facts_json, created_at }),
        }
    }
}

/// `v` is a JSON text holding `t`.
pub open spec fn is_text_value(v: JsonValue, t: Seq<char>) -> bool {
    match v {
        JsonValue::String(s) => s@ == t,
        _ => false,
    }
}

/// The canonical member texts of the variables, in their order.
pub open spec fn variable_texts(vars: Seq<(String, String)>) -> Seq<(Seq<char>, Seq<char>)> {
    Seq::new(vars.len(), |k: int| (vars[k].0@, quoted(vars[k].1@)))
}

/// The canonical text of the facts: a JSON object of their five fields,
/// the variables an object of texts, members sorted by name at each level.
pub open spec fn facts_text(facts: EnvironmentFacts) -> Seq<char> {
    let vars = seq!['{'] + join_members(sort_pairs(variable_texts(facts.variables@))) + seq!['}'];
    let members = seq![
        ("schema_version"@, quoted(facts.schema_version@)),
        ("os"@, quoted(facts.os@)),
        ("architecture"@, quoted(facts.architecture@)),
        ("family"@, quoted(facts.family@)),
        ("variables"@, vars),
    ];
    seq!['{'] + join_members(sort_pairs(members)) + seq!['}']
}

/// The canonical bytes of the facts, a function of their text fields alone.
pub open spec fn facts_encoding(facts: EnvironmentFacts) -> Seq<u8> {
    encode_utf8(facts_text(facts))
}

/// Every JSON value of the facts has the same canonical encoding, so the
/// canonical bytes and the fingerprint of the facts depend on the facts
/// alone.
pub proof fn lemma_facts_value_encoding(facts: EnvironmentFacts, v: JsonValue)
    requires
        facts_value(facts, v),
    ensures
        canonical_encoding(v) == facts_encoding(facts),
{
    let members = v->Object_0@;
    lemma_member_texts_index(members);
    let vars = members[4].1->Object_0@;
    lemma_member_texts_index(vars);
    assert(member_texts(vars) =~= variable_texts(facts.variables@)) by {
        assert forall|k: int| 0 <= k < vars.len() implies #[trigger] member_texts(vars)[k]
            == variable_texts(facts.variables@)[k] by {
            assert(vars[k].0@ == facts.variables@[k].0@);
        }
    }
    assert(canonical_text(members[4].1) == seq!['{'] + join_members(
        sort_pairs(variable_texts(facts.variables@)),
    ) + seq!['}']);
    let expected = seq![
        ("schema_version"@, quoted(facts.schema_version@)),
        ("os"@, quoted(facts.os@)),
        ("architecture"@, quoted(facts.architecture@)),
        ("family"@, quoted(facts.family@)),
        ("variables"@, seq!['{'] + join_members(sort_pairs(variable_texts(facts.variables@)))
            + seq!['}']),
    ];
    assert(member_texts(members) =~= expected) by {
        assert forall|k: int| 0 <= k < 5 implies #[trigger] member_texts(members)[k]
            == expected[k] by {
        }
    }
}

/// Facts with the same texts have the same canonical bytes, hence the same
/// fingerprint: `fingerprint` digests exactly what `canonical_bytes` gives.
pub proof fn lemma_equal_facts_encode_alike(a: EnvironmentFacts, b: EnvironmentFacts)
    requires
        a.schema_version@ == b.schema_version@,
        a.os@ == b.os@,
        a.architecture@ == b.architecture@,
        a.family@ == b.family@,
        vars_view(a.variables@) == vars_view(b.variables@),
    ensures
        facts_encoding(a) == facts_encoding(b),
{
    assert(vars_view(a.variables@).len() == a.variables@.len());
    assert(vars_view(b.variables@).len() == b.variables@.len());
    assert(variable_texts(a.variables@) =~= variable_texts(b.variables@)) by {
        assert forall|k: int| 0 <= k < a.variables@.len() implies #[trigger] variable_texts(
            a.variables@,
        )[k] == variable_texts(b.variables@)[k] by {
            assert(vars_view(a.variables@)[k] == vars_view(b.variables@)[k]);
        }
    }
}

/// `v` is the JSON value of `facts`.
pub open spec fn facts_value(facts: EnvironmentFacts, v: JsonValue) -> bool {
    match v {
        JsonValue::Object(members) => {
            &&& members@.len() == 5
            &&& members@[0].0@ == "schema_version"@
            &&& is_text_value(members@[0].1, facts.schema_version@)
            &&& members@[1].0@ == "os"@
            &&& is_text_value(members@[1].1, facts.os@)
            &&& members@[2].0@ == "architecture"@
            &&& is_text_value(members@[2].1, facts.architecture@)
            &&& members@[3].0@ == "family"@
            &&& is_text_value(members@[3].1, facts.family@)
            &&& members@[4].0@ == "variables"@
            &&& match members@[4].1 {
                JsonValue::Object(vars) => vars@.len() == facts.variables@.len() && forall|k: int|
                    0 <= k < vars@.len() ==> (#[trigger] vars@[k]).0@ == facts.variables@[k].0@
                        && is_text_value(vars@[k].1, facts.variables@[k].1@),
                _ => false,
            }
        },
        _ => false,
    }
}

fn validate_identity(value: &str, label: &str) -> (r: Result<(), PongError>)
    ensures
        r is Ok <==> !is_blank(value@) && !value@.contains('\0'),
        r is Err ==> (r matches Err(PongError::InvalidInput(m)) && m@ == label@ + " is invalid"@),
{
    let chars = chars_of(value);
    let mut nul = false;
    let mut i: usize = 0;
    while i < chars.len()
        invariant
            chars@ == value@,
            i <= chars@.len(),
            nul == exists|k: int| 0 <= k < i && chars@[k] == '\0',
        decreases chars@.len() - i,
    {
        if chars[i] == '\0' {
            nul = true;
        }
        i = i + 1;
    }
    if str_is_blank(value) || nul {
        return Err(PongError::InvalidInput(concat(label, " is invalid")));
    }
    Ok(())
}

} // verus!
