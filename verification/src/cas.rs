//! Content-addressed storage for immutable Pong objects: digests, the
//! publication checks and the instance-scoped fault plan.
//!
//! The handle here holds the store's root, its byte policy and its one-shot
//! fault plan, and decides every step of a publication or a read; the
//! filesystem work itself is done by the caller that owns the directory.
use crate::canonical::append_chars;
use crate::error::{text_of, PongError};
use crate::path::{join, path_join, EntryKind};
use crate::redaction::{bytes_hold_secret, Redactor};
use crate::text::{chars_of, string_from_chars, contains_seq, str_equal};
use vstd::prelude::*;
use vstd::utf8::{
    encode_scalar, encode_utf8, has_width_1_encoding, has_width_2_encoding, has_width_3_encoding,
    last_continuation_byte, leading_byte_width_1, leading_byte_width_2, leading_byte_width_3,
    leading_byte_width_4, second_last_continuation_byte, third_last_continuation_byte,
};
use vstd::string::StringSliceAdditionalSpecFns;
use sha2::Digest as Sha2Digest;

verus! {

broadcast use vstd::string::group_string_axioms;

/// Durable boundaries at which a fault may be injected.
#[derive(Clone, Copy, Debug, Eq, PartialEq, Structural)]
pub enum CasFailPoint {
    /// Before writing and syncing a newly-created staging object.
    StagingWrite,
    /// Immediately before the atomic no-replace publication.
    Publication,
    /// Before syncing a directory after a namespace change.
    DirectorySync,
    /// Before scanning existing bytes during startup.
    StartupScan,
}

pub open spec fn fail_point_label(point: CasFailPoint) -> &'static str {
    match point {
        CasFailPoint::StagingWrite => "cas_staging_write",
        CasFailPoint::Publication => "cas_publication",
        CasFailPoint::DirectorySync => "cas_directory_sync",
        CasFailPoint::StartupScan => "cas_startup_scan",
    }
}

impl CasFailPoint {
    pub fn label(self) -> (r: &'static str)
        ensures
            r == fail_point_label(self),
    {
        match self {
            CasFailPoint::StagingWrite => "cas_staging_write",
            CasFailPoint::Publication => "cas_publication",
            CasFailPoint::DirectorySync => "cas_directory_sync",
            CasFailPoint::StartupScan => "cas_startup_scan",
        }
    }
}

/// What an armed fault does when its boundary is reached.
#[derive(Clone, Copy, Debug, Eq, PartialEq, Structural)]
pub enum CasFaultAction {
    /// Continue with the real filesystem operation.
    Continue,
    /// Fail without performing the operation.
    Fail,
    /// Write at most this many bytes, then fail.
    ShortWrite(usize),
    /// Fail as a permission denial, without touching host permissions.
    PermissionDenied,
    /// Write at most this many bytes, then fail as exhausted quota.
    QuotaExhausted(usize),
}

/// A one-shot fault plan: at most one armed point, consumed when reached.
#[derive(Debug, Clone, Copy, Eq, PartialEq)]
pub struct CasFailpoints {
    armed: Option<(CasFailPoint, CasFaultAction)>,
}

impl CasFailpoints {
    pub closed spec fn armed_view(self) -> Option<(CasFailPoint, CasFaultAction)> {
        self.armed
    }

    /// The plan that injects nothing.
    pub closed spec fn no_faults() -> CasFailpoints {
        CasFailpoints { armed: None }
    }

    pub fn disabled() -> (r: Self)
        ensures
            r.armed_view() is None,
            r == CasFailpoints::no_faults(),
    {
        CasFailpoints { armed: None }
    }

    pub fn once(point: CasFailPoint, action: CasFaultAction) -> (r: Self)
        ensures
            r.armed_view() == Some((point, action)),
    {
        CasFailpoints { armed: Some((point, action)) }
    }

    pub fn arm(&mut self, point: CasFailPoint, action: CasFaultAction)
        ensures
            final(self).armed_view() == Some((point, action)),
    {
        self.armed = Some((point, action));
    }

    pub fn disarm(&mut self)
        ensures
            final(self).armed_view() is None,
    {
        self.armed = None;
    }

    pub fn armed(&self) -> (r: Option<(CasFailPoint, CasFaultAction)>)
        ensures
            r == self.armed_view(),
    {
        self.armed
    }

    /// Consume the plan when it is armed at `point`.
    pub fn take_if(&mut self, point: CasFailPoint) -> (r: Option<CasFaultAction>)
        ensures
            match old(self).armed_view() {
                Some((p, action)) => if p == point {
                    r == Some(action) && final(self).armed_view() is None
                } else {
                    r is None && final(self).armed_view() == old(self).armed_view()
                },
                None => r is None && final(self).armed_view() is None,
            },
    {
        match self.armed {
            Some((armed, action)) => {
                if armed == point {
                    self.armed = None;
                    Some(action)
                } else {
                    None
                }
            },
            None => None,
        }
    }
}

impl Default for CasFailpoints {
    fn default() -> (r: Self)
        ensures
            r.armed_view() is None,
    {
        CasFailpoints::disabled()
    }
}

/// The SHA-256 digest of a byte string.
pub uninterp spec fn sha256(data: Seq<u8>) -> Seq<u8>;

/// `Sha256::digest` of the sha2 crate: the digest of `data`, named by `sha256`.
#[verifier::external_body]
pub(crate) fn sha256_of(data: &[u8]) -> (r: [u8; 32])
    ensures
        r@ == sha256(data@),
{
    sha2::Sha256::digest(data).into()
}

/// Lower-case hexadecimal digit of `n < 16`.
pub open spec fn hex_char(n: int) -> char {
    if n < 10 {
        (48 + n) as char
    } else {
        (87 + n) as char
    }
}

/// Lower-case hexadecimal text of a byte string, two digits per byte.
pub open spec fn hex_lower(bytes: Seq<u8>) -> Seq<char>
    decreases bytes.len(),
{
    if bytes.len() == 0 {
        Seq::empty()
    } else {
        hex_lower(bytes.drop_last()) + seq![
            hex_char((bytes.last() / 16) as int),
            hex_char((bytes.last() % 16) as int),
        ]
    }
}

/// Value of an ASCII hexadecimal digit byte, either case.
pub open spec fn hex_value(b: u8) -> int {
    if 48 <= b <= 57 {
        b - 48
    } else if 65 <= b <= 70 {
        b - 55
    } else {
        b - 87
    }
}

pub open spec fn is_hex_byte(b: u8) -> bool {
    (48 <= b <= 57) || (65 <= b <= 70) || (97 <= b <= 102)
}

/// `hex::decode` succeeds: an even number of bytes, every one a hex digit.
pub open spec fn hex_decodes(b: Seq<u8>) -> bool {
    b.len() % 2 == 0 && forall|i: int| 0 <= i < b.len() ==> is_hex_byte(#[trigger] b[i])
}

/// The bytes `hex::decode` gives for a well-formed input.
pub open spec fn hex_decoded(b: Seq<u8>) -> Seq<u8> {
    Seq::new(b.len() / 2, |i: int| (hex_value(b[2 * i]) * 16 + hex_value(b[2 * i + 1])) as u8)
}

/// `hex::encode` of the hex crate: lower-case digits, two per byte.
#[verifier::external_body]
fn hex_encode(bytes: &[u8]) -> (r: String)
    ensures
        r@ == hex_lower(bytes@),
{
    hex::encode(bytes)
}

/// `hex::decode` of the hex crate: the decoded bytes when the text is an
/// even number of hex digits, else the crate's error text (what that text
/// says is not stated).
#[verifier::external_body]
fn hex_decode(text: &str) -> (r: Result<Vec<u8>, String>)
    ensures
        r is Ok <==> hex_decodes(text.spec_bytes()),
        r matches Ok(v) ==> v@ == hex_decoded(text.spec_bytes()),
{
    hex::decode(text).map_err(|error| error.to_string())
}

/// Byte-for-byte equality of two 32-byte digests.
pub fn same_digest_bytes(a: &[u8; 32], b: &[u8; 32]) -> (r: bool)
    ensures
        r <==> a@ == b@,
{
    let mut i: usize = 0;
    while i < 32
        invariant
            i <= 32,
            forall|k: int| 0 <= k < i ==> a@[k] == b@[k],
        decreases 32 - i,
    {
        if a[i] != b[i] {
            return false;
        }
        i = i + 1;
    }
    assert(a@ =~= b@);
    true
}

/// A SHA-256 content digest.
#[derive(Clone, Copy, Debug, Eq, Hash, Ord, PartialEq, PartialOrd)]
pub struct Digest(pub [u8; 32]);

impl Digest {
    pub const LENGTH: usize = 32;

    pub open spec fn bytes_view(self) -> Seq<u8> {
        self.0@
    }

    pub fn as_bytes(&self) -> (r: &[u8; 32])
        ensures
            r@ == self.bytes_view(),
    {
        &self.0
    }

    /// The digest's bytes as a slice.
    pub fn as_slice(&self) -> (r: &[u8])
        ensures
            r@ == self.bytes_view(),
    {
        self.0.as_slice()
    }

    /// Byte-for-byte equality of two digests.
    pub fn same_as(&self, other: &Digest) -> (r: bool)
        ensures
            r <==> self.bytes_view() == other.bytes_view(),
    {
        same_digest_bytes(&self.0, &other.0)
    }

    /// Lower-case hexadecimal form.
    pub fn to_hex(self) -> (r: String)
        ensures
            r@ == hex_lower(self.bytes_view()),
    {
        hex_encode(&self.0)
    }

    /// Parse a digest from exactly 64 hexadecimal characters.
    pub fn from_hex(value: &str) -> (r: Result<Digest, PongError>)
        ensures
            r is Ok <==> hex_decodes(value.spec_bytes()) && value.spec_bytes().len() == 64,
            r matches Ok(d) ==> d.bytes_view() == hex_decoded(value.spec_bytes()),
            r matches Ok(d) ==> encode_utf8(hex_lower(d.bytes_view())) == ascii_lowercase(
                value.spec_bytes(),
            ),
            r matches Err(e) ==> e is InvalidInput,
            (hex_decodes(value.spec_bytes()) && value.spec_bytes().len() != 64) ==> (r matches Err(
                e,
            ) && e matches PongError::InvalidInput(m) && m@
                == "digest must contain exactly 64 hexadecimal characters"@),
    {
        match hex_decode(value) {
            Err(error) => {
                let mut message = chars_of("invalid digest: ");
                let detail = chars_of(error.as_str());
                append_chars(&mut message, detail.as_slice());
                Err(PongError::InvalidInput(string_from_chars(message.as_slice())))
            },
            Ok(bytes) => {
                if bytes.len() != 32 {
                    return Err(
                        PongError::InvalidInput(
                            text_of("digest must contain exactly 64 hexadecimal characters"),
                        ),
                    );
                }
                let mut array: [u8; 32] = [0u8; 32];
                let mut i: usize = 0;
                while i < 32
                    invariant
                        bytes@.len() == 32,
                        i <= 32,
                        forall|k: int| 0 <= k < i ==> array@[k] == bytes@[k],
                    decreases 32 - i,
                {
                    array[i] = bytes[i];
                    i = i + 1;
                }
                assert(array@ =~= bytes@);
                proof {
                    lemma_hex_text_is_lowercased(value.spec_bytes());
                }
                Ok(Digest(array))
            },
        }
    }
}

impl AsRef<[u8]> for Digest {
    fn as_ref(&self) -> (r: &[u8])
        ensures
            r@ == self.bytes_view(),
    {
        self.as_slice()
    }
}

/// The bytes a digest is taken over: the domain's UTF-8 bytes, a NUL
/// separator, then the exact object bytes.
pub open spec fn digest_message(domain: Seq<char>, bytes: Seq<u8>) -> Seq<u8> {
    encode_utf8(domain) + seq![0u8] + bytes
}

/// sha256(domain UTF-8 bytes + NUL + exact object bytes).
pub fn digest_for(domain: &str, bytes: &[u8]) -> (d: Digest)
    ensures
        d.bytes_view() == sha256(digest_message(domain@, bytes@)),
{
    let mut message: Vec<u8> = vstd::slice::slice_to_vec(domain.as_bytes());
    message.push(0u8);
    let mut i: usize = 0;
    let ghost start = message@;
    while i < bytes.len()
        invariant
            i <= bytes@.len(),
            message@ == start + bytes@.take(i as int),
        decreases bytes@.len() - i,
    {
        message.push(bytes[i]);
        i = i + 1;
        assert(message@ =~= start + bytes@.take(i as int));
    }
    assert(message@ =~= digest_message(domain@, bytes@));
    Digest(sha256_of(message.as_slice()))
}

/// The lower-case hex form of `digest_for`.
pub fn digest_hex(domain: &str, bytes: &[u8]) -> (r: String)
    ensures
        r@ == hex_lower(sha256(digest_message(domain@, bytes@))),
{
    digest_for(domain, bytes).to_hex()
}

/// A domain names what kind of object is digested: it is non-empty and
/// holds no NUL, so the separator cannot be forged.
pub open spec fn domain_is_valid(domain: Seq<char>) -> bool {
    domain.len() > 0 && !domain.contains('\0')
}

/// Why a domain is refused.
pub open spec fn domain_error(domain: Seq<char>) -> Seq<char> {
    if domain.len() == 0 {
        "domain must not be empty"@
    } else {
        "domain must not contain NUL"@
    }
}

/// `e` is the refusal of an invalid domain.
pub open spec fn domain_refused(domain: Seq<char>, e: PongError) -> bool {
    e matches PongError::InvalidInput(m) && m@ == domain_error(domain)
}

pub fn validate_domain(domain: &str) -> (r: Result<(), PongError>)
    ensures
        r is Ok <==> domain_is_valid(domain@),
        r matches Err(e) ==> domain_refused(domain@, e),
        domain@.len() == 0 ==> (r matches Err(e) && e matches PongError::InvalidInput(m) && m@
            == "domain must not be empty"@),
        (domain@.len() > 0 && domain@.contains('\0')) ==> (r matches Err(e) && e matches PongError::InvalidInput(
            m,
        ) && m@ == "domain must not contain NUL"@),
{
    let chars = chars_of(domain);
    if chars.len() == 0 {
        return Err(PongError::InvalidInput(text_of("domain must not be empty")));
    }
    let mut i: usize = 0;
    while i < chars.len()
        invariant
            i <= chars@.len(),
            chars@ == domain@,
            forall|k: int| 0 <= k < i ==> chars@[k] != '\0',
        decreases chars@.len() - i,
    {
        if chars[i] == '\0' {
            return Err(PongError::InvalidInput(text_of("domain must not contain NUL")));
        }
        i = i + 1;
    }
    Ok(())
}

/// The error an injected fault reports: a permission denial, exhausted
/// quota, or an injected fault, labelled with the point and the reason.
pub open spec fn fault_label(point: CasFailPoint, action: CasFaultAction) -> Seq<char> {
    match action {
        CasFaultAction::Continue | CasFaultAction::Fail => fail_point_label(point)@,
        CasFaultAction::ShortWrite(_) => fail_point_label(point)@ + ":short_write"@,
        CasFaultAction::PermissionDenied => fail_point_label(point)@ + ":permission_denied"@,
        CasFaultAction::QuotaExhausted(_) => fail_point_label(point)@ + ":quota_exhausted"@,
    }
}

pub open spec fn fault_error_spec(point: CasFailPoint, action: CasFaultAction, e: PongError) -> bool {
    match action {
        CasFaultAction::PermissionDenied => e matches PongError::PermissionDenied(m) && m@
            == fault_label(point, action),
        CasFaultAction::QuotaExhausted(_) => e matches PongError::ResourceExhausted(m) && m@
            == fault_label(point, action),
        _ => e matches PongError::FaultInjected(m) && m@ == fault_label(point, action),
    }
}

pub fn fault_error(point: CasFailPoint, action: CasFaultAction) -> (e: PongError)
    ensures
        fault_error_spec(point, action, e),
{
    let mut label = chars_of(point.label());
    let reason: Option<&str> = match action {
        CasFaultAction::Continue | CasFaultAction::Fail => None,
        CasFaultAction::ShortWrite(_) => Some(":short_write"),
        CasFaultAction::PermissionDenied => Some(":permission_denied"),
        CasFaultAction::QuotaExhausted(_) => Some(":quota_exhausted"),
    };
    if let Some(reason) = reason {
        let r = chars_of(reason);
        append_chars(&mut label, r.as_slice());
    }
    let text = string_from_chars(label.as_slice());
    match action {
        CasFaultAction::PermissionDenied => PongError::PermissionDenied(text),
        CasFaultAction::QuotaExhausted(_) => PongError::ResourceExhausted(text),
        _ => PongError::FaultInjected(text),
    }
}

/// What the staging write does under the fault plan: how many bytes to
/// write, whether to sync, and the error to report afterwards.
pub struct StagingWrite {
    pub write_len: usize,
    pub sync: bool,
    pub error: Option<PongError>,
}

/// One object file: the digest it is stored under and its bytes.
#[derive(Clone, Debug)]
pub struct StoredObject {
    pub digest: Digest,
    pub bytes: Vec<u8>,
}

/// What a store's directory holds, as the host reads it: the files under
/// `objects/` by digest, the files under `quarantine/`, and any staging
/// file left behind.
#[derive(Clone, Debug)]
pub struct StoreContents {
    pub objects: Vec<StoredObject>,
    pub quarantined: Vec<StoredObject>,
    pub staging: Vec<Vec<u8>>,
}

impl StoreContents {
    /// An empty store directory.
    pub fn empty() -> (r: StoreContents)
        ensures
            r.objects@.len() == 0,
            r.quarantined@.len() == 0,
            r.staging@.len() == 0,
    {
        StoreContents { objects: Vec::new(), quarantined: Vec::new(), staging: Vec::new() }
    }
}

/// `i` is the first object stored under digest `d`.
pub open spec fn is_first_object(objects: Seq<StoredObject>, d: Seq<u8>, i: int) -> bool {
    &&& 0 <= i < objects.len()
    &&& objects[i].digest.bytes_view() == d
    &&& forall|j: int| 0 <= j < i ==> (#[trigger] objects[j]).digest.bytes_view() != d
}

/// Where the object stored under `d` stands, if any.
pub open spec fn object_index(objects: Seq<StoredObject>, d: Seq<u8>) -> Option<int> {
    if exists|i: int| is_first_object(objects, d, i) {
        Some(choose|i: int| is_first_object(objects, d, i))
    } else {
        None
    }
}

pub proof fn lemma_object_index(objects: Seq<StoredObject>, d: Seq<u8>, i: int)
    requires
        is_first_object(objects, d, i),
    ensures
        object_index(objects, d) == Some(i),
{
    let k = choose|k: int| is_first_object(objects, d, k);
    if k < i {
        assert(objects[k].digest.bytes_view() != d);
    } else if k > i {
        assert(objects[i].digest.bytes_view() != d);
    }
}

/// Some object stored under `d` is the first one stored under it.
pub proof fn lemma_first_object_exists(objects: Seq<StoredObject>, d: Seq<u8>, k: int)
    requires
        0 <= k < objects.len(),
        objects[k].digest.bytes_view() == d,
    ensures
        object_index(objects, d) is Some,
    decreases k,
{
    if exists|j: int| 0 <= j < k && (#[trigger] objects[j]).digest.bytes_view() == d {
        let j = choose|j: int| 0 <= j < k && (#[trigger] objects[j]).digest.bytes_view() == d;
        lemma_first_object_exists(objects, d, j);
    } else {
        assert(is_first_object(objects, d, k));
    }
}

/// None of the bytes a store holds carries a registered secret.
pub open spec fn contents_clean(contents: StoreContents, secrets: Seq<Seq<char>>) -> bool {
    &&& forall|i: int|
        0 <= i < contents.objects@.len() ==> !bytes_hold_secret(
            (#[trigger] contents.objects@[i]).bytes@,
            secrets,
        )
    &&& forall|i: int|
        0 <= i < contents.quarantined@.len() ==> !bytes_hold_secret(
            (#[trigger] contents.quarantined@[i]).bytes@,
            secrets,
        )
    &&& forall|i: int|
        0 <= i < contents.staging@.len() ==> !bytes_hold_secret(
            (#[trigger] contents.staging@[i])@,
            secrets,
        )
}

/// The action the plan `fp` applies at `point`.
pub open spec fn fault_action_at(fp: CasFailpoints, point: CasFailPoint) -> CasFaultAction {
    match fp.armed_view() {
        Some((p, a)) => if p == point {
            a
        } else {
            CasFaultAction::Continue
        },
        None => CasFaultAction::Continue,
    }
}

/// The plan left after `point` was consulted.
pub open spec fn armed_after(fp: CasFailpoints, point: CasFailPoint) -> Option<
    (CasFailPoint, CasFaultAction),
> {
    match fp.armed_view() {
        Some((p, a)) => if p == point {
            None
        } else {
            Some((p, a))
        },
        None => None,
    }
}

/// The plan left after a new object's publication consulted its points.
pub open spec fn armed_after_publication(fp: CasFailpoints) -> Option<
    (CasFailPoint, CasFaultAction),
> {
    match fp.armed_view() {
        Some((p, a)) => if p == CasFailPoint::StagingWrite || p == CasFailPoint::Publication || p
            == CasFailPoint::DirectorySync {
            None
        } else {
            Some((p, a))
        },
        None => None,
    }
}

/// The content-addressed store: its root directory, byte policy, one-shot
/// fault plan, and what its directory holds.
pub struct Cas {
    root: String,
    redactor: Redactor,
    failpoints: CasFailpoints,
    objects: Vec<StoredObject>,
    quarantined: Vec<StoredObject>,
    staging: Vec<Vec<u8>>,
}

/// `new` holds what `old` holds, with the same plan.
pub open spec fn store_unchanged(old: Cas, new: Cas) -> bool {
    &&& new.failpoints_view() == old.failpoints_view()
    &&& new.objects_view() == old.objects_view()
    &&& new.quarantined_view() == old.quarantined_view()
}

/// `new` is `old` with the object at `i` moved to quarantine.
pub open spec fn quarantined_at(old: Cas, new: Cas, i: int) -> bool {
    &&& new.failpoints_view() == old.failpoints_view()
    &&& new.objects_view() == old.objects_view().remove(i)
    &&& new.quarantined_view() == old.quarantined_view().push(old.objects_view()[i])
}

/// What publishing `bytes` under the digest `d` in domain `domain` does,
/// from the store `old` to the store `new`, answering `r`.
pub open spec fn publication_outcome(
    old: Cas,
    new: Cas,
    domain: Seq<char>,
    d: Seq<u8>,
    bytes: Seq<u8>,
    r: Result<(), PongError>,
) -> bool {
    let secrets = old.secret_list();
    &&& new.root_view() == old.root_view()
    &&& new.secret_list() == secrets
    &&& new.staging_view() == old.staging_view()
    &&& if !domain_is_valid(domain) {
        r matches Err(e) && domain_refused(domain, e) && store_unchanged(old, new)
    } else if bytes_hold_secret(bytes, secrets) {
        &&& r matches Err(e) && e matches PongError::Integrity(m) && m@
            == "configured secret detected in persisted bytes at "@ + "CAS publication"@
        &&& store_unchanged(old, new)
    } else if d != sha256(digest_message(domain, bytes)) {
        &&& r matches Err(e) && e matches PongError::Integrity(m) && m@
            == "CAS digest mismatch: expected "@ + hex_lower(d) + ", got "@ + hex_lower(
            sha256(digest_message(domain, bytes)),
        )
        &&& store_unchanged(old, new)
    } else {
        match object_index(old.objects_view(), d) {
            Some(i) => {
                let b = old.objects_view()[i].bytes@;
                if !(b.len() == bytes.len() && sha256(digest_message(domain, b)) == d) {
                    &&& r matches Err(e) && e matches PongError::Integrity(m) && m@
                        == "immutable CAS collision or corrupt object "@ + hex_lower(d)
                    &&& quarantined_at(old, new, i)
                } else if bytes_hold_secret(b, secrets) {
                    &&& r matches Err(e) && e matches PongError::Integrity(m) && m@
                        == "configured secret detected in CAS object"@
                    &&& quarantined_at(old, new, i)
                } else {
                    r is Ok && store_unchanged(old, new)
                }
            },
            None => {
                let a1 = fault_action_at(old.failpoints_view(), CasFailPoint::StagingWrite);
                let a2 = fault_action_at(old.failpoints_view(), CasFailPoint::Publication);
                let a3 = fault_action_at(old.failpoints_view(), CasFailPoint::DirectorySync);
                &&& new.failpoints_view().armed_view() == armed_after_publication(
                    old.failpoints_view(),
                )
                &&& new.quarantined_view() == old.quarantined_view()
                &&& if a1 != CasFaultAction::Continue {
                    r matches Err(e) && fault_error_spec(CasFailPoint::StagingWrite, a1, e)
                        && new.objects_view() == old.objects_view()
                } else if a2 != CasFaultAction::Continue {
                    r matches Err(e) && fault_error_spec(CasFailPoint::Publication, a2, e)
                        && new.objects_view() == old.objects_view()
                } else {
                    &&& new.objects_view().len() == old.objects_view().len() + 1
                    &&& new.objects_view().drop_last() == old.objects_view()
                    &&& new.objects_view().last().digest.bytes_view() == d
                    &&& new.objects_view().last().bytes@ == bytes
                    &&& if a3 != CasFaultAction::Continue {
                        r matches Err(e) && fault_error_spec(CasFailPoint::DirectorySync, a3, e)
                    } else {
                        r is Ok
                    }
                }
            },
        }
    }
}

/// What reading the object under the digest `d` in domain `domain` does,
/// from the store `old` to the store `new`, answering `r`.
pub open spec fn read_outcome(
    old: Cas,
    new: Cas,
    domain: Seq<char>,
    d: Seq<u8>,
    r: Result<Vec<u8>, PongError>,
) -> bool {
    &&& new.root_view() == old.root_view()
    &&& new.secret_list() == old.secret_list()
    &&& new.staging_view() == old.staging_view()
    &&& if !domain_is_valid(domain) {
        r matches Err(e) && domain_refused(domain, e) && store_unchanged(old, new)
    } else {
        match object_index(old.objects_view(), d) {
            None => {
                &&& r matches Err(e) && e matches PongError::NotFound(m) && m@ == "CAS object "@
                    + hex_lower(d) + " does not exist"@
                &&& store_unchanged(old, new)
            },
            Some(i) => {
                let b = old.objects_view()[i].bytes@;
                if sha256(digest_message(domain, b)) != d {
                    &&& r matches Err(e) && e matches PongError::Integrity(m) && m@ == "CAS object "@
                        + hex_lower(d) + " failed size or digest verification"@
                    &&& quarantined_at(old, new, i)
                } else if bytes_hold_secret(b, old.secret_list()) {
                    &&& r matches Err(e) && e matches PongError::Integrity(m) && m@
                        == "configured secret detected in CAS object"@
                    &&& quarantined_at(old, new, i)
                } else {
                    r matches Ok(v) && v@ == b && store_unchanged(old, new)
                }
            },
        }
    }
}

/// What opening a store does: an armed start-up scan fault refuses it,
/// then any stored bytes carrying a registered secret refuse it; otherwise
/// the store holds what its directory holds.
pub open spec fn open_outcome(
    root: Seq<char>,
    secrets: Seq<Seq<char>>,
    failpoints: CasFailpoints,
    contents: StoreContents,
    r: Result<Cas, PongError>,
) -> bool {
    let a = fault_action_at(failpoints, CasFailPoint::StartupScan);
    if a != CasFaultAction::Continue {
        r matches Err(e) && fault_error_spec(CasFailPoint::StartupScan, a, e)
    } else if !contents_clean(contents, secrets) {
        r matches Err(e) && e matches PongError::Integrity(m) && m@
            == "configured secret detected in persisted bytes at CAS-owned bytes"@
    } else {
        &&& r matches Ok(c)
        &&& c.root_view() == root
        &&& c.secret_list() == secrets
        &&& c.failpoints_view().armed_view() == armed_after(failpoints, CasFailPoint::StartupScan)
        &&& c.objects_view() == contents.objects@
        &&& c.quarantined_view() == contents.quarantined@
        &&& c.staging_view() == contents.staging@
    }
}

pub open spec fn object_path_spec(root: Seq<char>, digest: Digest) -> Seq<char> {
    let hex = hex_lower(digest.bytes_view());
    path_join(path_join(path_join(root, "objects"@), hex.take(2)), hex.skip(2))
}

impl Cas {
    pub closed spec fn root_view(&self) -> Seq<char> {
        self.root@
    }

    pub closed spec fn failpoints_view(&self) -> CasFailpoints {
        self.failpoints
    }

    pub closed spec fn secret_list(&self) -> Seq<Seq<char>> {
        self.redactor.secret_list()
    }

    /// The files under `objects/`, by digest.
    pub closed spec fn objects_view(&self) -> Seq<StoredObject> {
        self.objects@
    }

    /// The files under `quarantine/`.
    pub closed spec fn quarantined_view(&self) -> Seq<StoredObject> {
        self.quarantined@
    }

    /// The staging files left behind before the store was opened.
    pub closed spec fn staging_view(&self) -> Seq<Vec<u8>> {
        self.staging@
    }

    /// The bytes stored under the digest `d`, if any.
    pub open spec fn stored(&self, d: Seq<u8>) -> Option<Seq<u8>> {
        match object_index(self.objects_view(), d) {
            Some(i) => Some(self.objects_view()[i].bytes@),
            None => None,
        }
    }

    /// Open a store rooted at `root` over what its directory holds, with the
    /// default byte policy and no faults.
    pub fn new(root: &str, contents: StoreContents) -> (r: Result<Cas, PongError>)
        ensures
            open_outcome(root@, Seq::<Seq<char>>::empty(), CasFailpoints::no_faults(), contents, r),
            r matches Ok(c) ==> c.failpoints_view().armed_view() is None,
    {
        Cas::new_with_redactor_and_failpoints(root, Redactor::default_policy(), CasFailpoints::disabled(), contents)
    }

    /// Open a store with the repository's fail-closed byte policy:
    /// secret-bearing content is rejected, never rewritten, and stored bytes
    /// that carry a secret refuse the store.
    pub fn new_with_redactor(root: &str, redactor: Redactor, contents: StoreContents) -> (r: Result<
        Cas,
        PongError,
    >)
        ensures
            open_outcome(root@, redactor.secret_list(), CasFailpoints::no_faults(), contents, r),
            r matches Ok(c) ==> c.failpoints_view().armed_view() is None,
    {
        Cas::new_with_redactor_and_failpoints(root, redactor, CasFailpoints::disabled(), contents)
    }

    /// Open a store with an explicit one-shot fault plan.
    pub fn new_with_failpoints(root: &str, failpoints: CasFailpoints, contents: StoreContents) -> (r:
        Result<Cas, PongError>)
        ensures
            open_outcome(root@, Seq::<Seq<char>>::empty(), failpoints, contents, r),
    {
        Cas::new_with_redactor_and_failpoints(root, Redactor::default_policy(), failpoints, contents)
    }

    /// Open a store with both a byte policy and a fault plan: the start-up
    /// scan runs first, under the plan, over every stored byte.
    pub fn new_with_redactor_and_failpoints(
        root: &str,
        redactor: Redactor,
        failpoints: CasFailpoints,
        contents: StoreContents,
    ) -> (r: Result<Cas, PongError>)
        ensures
            open_outcome(root@, redactor.secret_list(), failpoints, contents, r),
    {
        let StoreContents { objects, quarantined, staging } = contents;
        let mut cas = Cas {
            root: text_of(root),
            redactor,
            failpoints,
            objects,
            quarantined,
            staging,
        };
        cas.begin_startup_scan()?;
        let clean = objects_clean(&cas.redactor, &cas.objects) && objects_clean(
            &cas.redactor,
            &cas.quarantined,
        ) && files_clean(&cas.redactor, &cas.staging);
        if !clean {
            return Err(
                PongError::Integrity(
                    text_of("configured secret detected in persisted bytes at CAS-owned bytes"),
                ),
            );
        }
        Ok(cas)
    }

    /// The object files, by digest.
    pub fn objects(&self) -> (r: &Vec<StoredObject>)
        ensures
            r@ == self.objects_view(),
    {
        &self.objects
    }

    /// The quarantined files.
    pub fn quarantined(&self) -> (r: &Vec<StoredObject>)
        ensures
            r@ == self.quarantined_view(),
    {
        &self.quarantined
    }

    /// The staging files left behind before the store was opened.
    pub fn staging(&self) -> (r: &Vec<Vec<u8>>)
        ensures
            r@ == self.staging_view(),
    {
        &self.staging
    }

    /// What the store's directory holds, for the host to keep or to reopen.
    pub fn into_contents(self) -> (r: StoreContents)
        ensures
            r.objects@ == self.objects_view(),
            r.quarantined@ == self.quarantined_view(),
            r.staging@ == self.staging_view(),
    {
        StoreContents { objects: self.objects, quarantined: self.quarantined, staging: self.staging }
    }

    pub fn root(&self) -> (r: &str)
        ensures
            r@ == self.root_view(),
    {
        self.root.as_str()
    }

    pub fn redactor(&self) -> (r: &Redactor)
        ensures
            r.secret_list() == self.secret_list(),
    {
        &self.redactor
    }

    /// The current fault plan.
    pub fn failpoints(&self) -> (r: CasFailpoints)
        ensures
            r == self.failpoints_view(),
    {
        self.failpoints
    }

    /// Replace the fault plan.
    pub fn set_failpoints(&mut self, failpoints: CasFailpoints)
        ensures
            final(self).objects_view() == old(self).objects_view(),
            final(self).quarantined_view() == old(self).quarantined_view(),
            final(self).staging_view() == old(self).staging_view(),
            final(self).failpoints_view() == failpoints,
            final(self).root_view() == old(self).root_view(),
            final(self).secret_list() == old(self).secret_list(),
    {
        self.failpoints = failpoints;
    }

    /// The fault to apply at `point`: the armed action when the plan is
    /// armed there (which consumes it), else `Continue`.
    pub fn take_fault(&mut self, point: CasFailPoint) -> (r: CasFaultAction)
        ensures
            final(self).objects_view() == old(self).objects_view(),
            final(self).quarantined_view() == old(self).quarantined_view(),
            final(self).staging_view() == old(self).staging_view(),
            match old(self).failpoints_view().armed_view() {
                Some((p, action)) => if p == point {
                    r == action && final(self).failpoints_view().armed_view() is None
                } else {
                    r == CasFaultAction::Continue && final(self).failpoints_view()
                        == old(self).failpoints_view()
                },
                None => r == CasFaultAction::Continue && final(self).failpoints_view()
                    == old(self).failpoints_view(),
            },
            final(self).root_view() == old(self).root_view(),
            final(self).secret_list() == old(self).secret_list(),
    {
        match self.failpoints.take_if(point) {
            Some(action) => action,
            None => CasFaultAction::Continue,
        }
    }

    /// `<root>/objects/<first two hex digits>/<remaining hex digits>`.
    pub fn object_path(&self, digest: Digest) -> (r: String)
        ensures
            r@ == object_path_spec(self.root_view(), digest),
    {
        let hex = digest.to_hex();
        let chars = chars_of(hex.as_str());
        assert(chars@.len() == 64) by {
            lemma_hex_lower_len(digest.bytes_view());
        }
        let mut head: Vec<char> = Vec::new();
        head.push(chars[0]);
        head.push(chars[1]);
        let mut tail: Vec<char> = Vec::new();
        let mut i: usize = 2;
        while i < chars.len()
            invariant
                2 <= i <= chars@.len(),
                tail@ == chars@.subrange(2, i as int),
            decreases chars@.len() - i,
        {
            tail.push(chars[i]);
            i = i + 1;
            assert(tail@ =~= chars@.subrange(2, i as int));
        }
        assert(head@ =~= chars@.take(2));
        assert(tail@ =~= chars@.skip(2));
        let objects = join(self.root.as_str(), "objects");
        let head_text = string_from_chars(head.as_slice());
        let shard = join(objects.as_str(), head_text.as_str());
        let tail_text = string_from_chars(tail.as_slice());
        join(shard.as_str(), tail_text.as_str())
    }

    /// The checks before any staging file becomes reachable: the domain is
    /// valid, the bytes hold no configured secret, and they digest to
    /// `expected`.
    pub fn check_publication(&self, domain: &str, expected: Digest, bytes: &[u8]) -> (r: Result<
        (),
        PongError,
    >)
        ensures
            r is Ok <==> domain_is_valid(domain@) && !bytes_hold_secret(
                bytes@,
                self.secret_list(),
            ) && expected.bytes_view() == sha256(digest_message(domain@, bytes@)),
            !domain_is_valid(domain@) ==> (r matches Err(e) && domain_refused(domain@, e)),
            (domain_is_valid(domain@) && bytes_hold_secret(bytes@, self.secret_list())) ==> (r matches Err(
                e,
            ) && e matches PongError::Integrity(m) && m@
                == "configured secret detected in persisted bytes at "@ + "CAS publication"@),
            (domain_is_valid(domain@) && !bytes_hold_secret(bytes@, self.secret_list())
                && expected.bytes_view() != sha256(digest_message(domain@, bytes@))) ==> (r matches Err(
                e,
            ) && e matches PongError::Integrity(m) && m@ == "CAS digest mismatch: expected "@
                + hex_lower(expected.bytes_view()) + ", got "@ + hex_lower(
                sha256(digest_message(domain@, bytes@)),
            )),
    {
        validate_domain(domain)?;
        self.redactor.assert_clean_bytes(bytes, "CAS publication")?;
        let actual = digest_for(domain, bytes);
        if !actual.same_as(&expected) {
            let mut message = chars_of("CAS digest mismatch: expected ");
            let e = chars_of(expected.to_hex().as_str());
            append_chars(&mut message, e.as_slice());
            let g = chars_of(", got ");
            append_chars(&mut message, g.as_slice());
            let a = chars_of(actual.to_hex().as_str());
            append_chars(&mut message, a.as_slice());
            return Err(PongError::Integrity(string_from_chars(message.as_slice())));
        }
        Ok(())
    }

    /// Store an object under its content-derived key and give that key.
    /// Repeating a store of identical bytes yields the same digest and
    /// accepts the object already there; no store overwrites a key.
    pub fn put(&mut self, domain: &str, bytes: &[u8]) -> (r: Result<Digest, PongError>)
        ensures
            !domain_is_valid(domain@) ==> (r matches Err(e) && domain_refused(domain@, e)
                && store_unchanged(*old(self), *final(self)) && final(self).root_view() == old(
                self,
            ).root_view() && final(self).secret_list() == old(self).secret_list()
                && final(self).staging_view() == old(self).staging_view()),
            domain_is_valid(domain@) ==> publication_outcome(
                *old(self),
                *final(self),
                domain@,
                sha256(digest_message(domain@, bytes@)),
                bytes@,
                match r {
                    Ok(_) => Ok(()),
                    Err(e) => Err(e),
                },
            ),
            r matches Ok(d) ==> d.bytes_view() == sha256(digest_message(domain@, bytes@)),
    {
        validate_domain(domain)?;
        let digest = digest_for(domain, bytes);
        self.put_verified(domain, digest, bytes)?;
        Ok(digest)
    }

    /// Store bytes under a caller-supplied digest, rejecting a mismatch
    /// before anything is staged. An object already stored under the digest
    /// is verified instead (and quarantined if it fails); a new one is staged,
    /// published and its directories synced, each step under the fault plan.
    pub fn put_verified(&mut self, domain: &str, expected: Digest, bytes: &[u8]) -> (r: Result<
        (),
        PongError,
    >)
        ensures
            publication_outcome(*old(self), *final(self), domain@, expected.bytes_view(), bytes@, r),
    {
        self.check_publication(domain, expected, bytes)?;
        match find_object(&self.objects, &expected) {
            Some(i) => {
                proof {
                    lemma_object_index(self.objects@, expected.bytes_view(), i as int);
                }
                let size = self.objects[i].bytes.len() as u64;
                let checked = self.verify_existing(
                    domain,
                    expected,
                    bytes.len() as u64,
                    size,
                    self.objects[i].bytes.as_slice(),
                );
                match checked {
                    Ok(()) => Ok(()),
                    Err(e) => {
                        self.quarantine_at(i);
                        Err(e)
                    },
                }
            },
            None => {
                proof {
                    if exists|k: int| is_first_object(self.objects@, expected.bytes_view(), k) {
                        let k = choose|k: int| is_first_object(self.objects@, expected.bytes_view(), k);
                        assert(self.objects@[k].digest.bytes_view() == expected.bytes_view());
                    }
                }
                let write = self.staging_write(bytes.len());
                if let Some(e) = write.error {
                    return Err(e);
                }
                let action = self.take_fault(CasFailPoint::Publication);
                match action {
                    CasFaultAction::Continue => {},
                    _ => {
                        return Err(fault_error(CasFailPoint::Publication, action));
                    },
                }
                let stored = StoredObject {
                    digest: expected,
                    bytes: vstd::slice::slice_to_vec(bytes),
                };
                let ghost before = self.objects@;
                self.objects.push(stored);
                proof {
                    assert(self.objects@.drop_last() =~= before);
                    assert(self.objects@.last().bytes@ == bytes@);
                }
                let shard = self.take_fault(CasFailPoint::DirectorySync);
                match shard {
                    CasFaultAction::Continue => {},
                    _ => {
                        return Err(fault_error(CasFailPoint::DirectorySync, shard));
                    },
                }
                let top = self.take_fault(CasFailPoint::DirectorySync);
                match top {
                    CasFaultAction::Continue => Ok(()),
                    _ => Err(fault_error(CasFailPoint::DirectorySync, top)),
                }
            },
        }
    }

    /// Read the object stored under `digest` in `domain`, verifying it: an
    /// object whose digest or bytes fail the checks is quarantined.
    pub fn get(&mut self, domain: &str, digest: Digest) -> (r: Result<Vec<u8>, PongError>)
        ensures
            read_outcome(*old(self), *final(self), domain@, digest.bytes_view(), r),
    {
        validate_domain(domain)?;
        match find_object(&self.objects, &digest) {
            None => {
                proof {
                    if exists|k: int| is_first_object(self.objects@, digest.bytes_view(), k) {
                        let k = choose|k: int| is_first_object(self.objects@, digest.bytes_view(), k);
                        assert(self.objects@[k].digest.bytes_view() == digest.bytes_view());
                    }
                }
                let mut message = chars_of("CAS object ");
                let d = chars_of(digest.to_hex().as_str());
                append_chars(&mut message, d.as_slice());
                let tail = chars_of(" does not exist");
                append_chars(&mut message, tail.as_slice());
                Err(PongError::NotFound(string_from_chars(message.as_slice())))
            },
            Some(i) => {
                proof {
                    lemma_object_index(self.objects@, digest.bytes_view(), i as int);
                }
                let size = self.objects[i].bytes.len() as u64;
                let checked = self.verify_read(domain, digest, size, self.objects[i].bytes.as_slice());
                match checked {
                    Ok(()) => Ok(self.objects[i].bytes.clone()),
                    Err(e) => {
                        self.quarantine_at(i);
                        Err(e)
                    },
                }
            },
        }
    }

    /// Whether an object is stored under `digest`.
    pub fn has_object(&self, digest: Digest) -> (r: bool)
        ensures
            r == self.stored(digest.bytes_view()) is Some,
    {
        match find_object(&self.objects, &digest) {
            Some(i) => {
                proof {
                    lemma_object_index(self.objects@, digest.bytes_view(), i as int);
                }
                true
            },
            None => {
                proof {
                    if exists|k: int| is_first_object(self.objects@, digest.bytes_view(), k) {
                        let k = choose|k: int| is_first_object(self.objects@, digest.bytes_view(), k);
                        assert(self.objects@[k].digest.bytes_view() == digest.bytes_view());
                    }
                }
                false
            },
        }
    }

    /// Move the object at `i` to quarantine.
    fn quarantine_at(&mut self, i: usize)
        requires
            i < old(self).objects@.len(),
        ensures
            quarantined_at(*old(self), *final(self), i as int),
            final(self).root_view() == old(self).root_view(),
            final(self).secret_list() == old(self).secret_list(),
            final(self).staging_view() == old(self).staging_view(),
    {
        let object = self.objects.remove(i);
        self.quarantined.push(object);
    }

    /// What the staging write does: with no fault, all bytes are written and
    /// synced; a failure or permission fault writes nothing; a short-write
    /// or quota fault writes a prefix of at most its limit. Every fault is
    /// reported with its error.
    pub fn staging_write(&mut self, len: usize) -> (r: StagingWrite)
        ensures
            final(self).failpoints_view().armed_view() == armed_after(
                old(self).failpoints_view(),
                CasFailPoint::StagingWrite,
            ),
            final(self).objects_view() == old(self).objects_view(),
            final(self).quarantined_view() == old(self).quarantined_view(),
            final(self).staging_view() == old(self).staging_view(),
            final(self).root_view() == old(self).root_view(),
            final(self).secret_list() == old(self).secret_list(),
            ({
                let action = match old(self).failpoints_view().armed_view() {
                    Some((p, a)) => if p == CasFailPoint::StagingWrite {
                        a
                    } else {
                        CasFaultAction::Continue
                    },
                    None => CasFaultAction::Continue,
                };
                match action {
                    CasFaultAction::Continue => r.write_len == len && r.sync && r.error is None,
                    CasFaultAction::ShortWrite(limit) | CasFaultAction::QuotaExhausted(limit) => {
                        &&& r.write_len == if limit < len {
                            limit
                        } else {
                            len
                        }
                        &&& !r.sync
                        &&& r.error matches Some(e) && fault_error_spec(
                            CasFailPoint::StagingWrite,
                            action,
                            e,
                        )
                    },
                    _ => {
                        &&& r.write_len == 0
                        &&& !r.sync
                        &&& r.error matches Some(e) && fault_error_spec(
                            CasFailPoint::StagingWrite,
                            action,
                            e,
                        )
                    },
                }
            }),
    {
        let action = self.take_fault(CasFailPoint::StagingWrite);
        match action {
            CasFaultAction::Continue => StagingWrite { write_len: len, sync: true, error: None },
            CasFaultAction::ShortWrite(limit) | CasFaultAction::QuotaExhausted(limit) => {
                let prefix = if limit < len {
                    limit
                } else {
                    len
                };
                StagingWrite {
                    write_len: prefix,
                    sync: false,
                    error: Some(fault_error(CasFailPoint::StagingWrite, action)),
                }
            },
            _ => StagingWrite {
                write_len: 0,
                sync: false,
                error: Some(fault_error(CasFailPoint::StagingWrite, action)),
            },
        }
    }

    /// Verify bytes read back from the store. A size or digest mismatch or
    /// a configured secret is an integrity failure, after which the caller
    /// quarantines the object.
    pub fn verify_read(&self, domain: &str, digest: Digest, size: u64, bytes: &[u8]) -> (r: Result<
        (),
        PongError,
    >)
        ensures
            r is Ok <==> size == bytes@.len() && digest.bytes_view() == sha256(
                digest_message(domain@, bytes@),
            ) && !bytes_hold_secret(bytes@, self.secret_list()),
            !(size == bytes@.len() && digest.bytes_view() == sha256(
                digest_message(domain@, bytes@),
            )) ==> (r matches Err(e) && e matches PongError::Integrity(m) && m@ == "CAS object "@
                + hex_lower(digest.bytes_view()) + " failed size or digest verification"@),
            (size == bytes@.len() && digest.bytes_view() == sha256(digest_message(domain@, bytes@))
                && bytes_hold_secret(bytes@, self.secret_list())) ==> (r matches Err(e)
                && e matches PongError::Integrity(m) && m@
                == "configured secret detected in CAS object"@),
    {
        let actual = digest_for(domain, bytes);
        if size != bytes.len() as u64 || !actual.same_as(&digest) {
            let mut message = chars_of("CAS object ");
            let d = chars_of(digest.to_hex().as_str());
            append_chars(&mut message, d.as_slice());
            let tail = chars_of(" failed size or digest verification");
            append_chars(&mut message, tail.as_slice());
            return Err(PongError::Integrity(string_from_chars(message.as_slice())));
        }
        if self.redactor.contains_secret(bytes) {
            return Err(PongError::Integrity(text_of("configured secret detected in CAS object")));
        }
        Ok(())
    }

    /// Verify an object already present at a publication's destination: it
    /// must hold exactly the bytes being published.
    pub fn verify_existing(
        &self,
        domain: &str,
        digest: Digest,
        expected_size: u64,
        size: u64,
        bytes: &[u8],
    ) -> (r: Result<(), PongError>)
        ensures
            r is Ok <==> size == expected_size && digest.bytes_view() == sha256(
                digest_message(domain@, bytes@),
            ) && !bytes_hold_secret(bytes@, self.secret_list()),
            !(size == expected_size && digest.bytes_view() == sha256(
                digest_message(domain@, bytes@),
            )) ==> (r matches Err(e) && e matches PongError::Integrity(m) && m@
                == "immutable CAS collision or corrupt object "@ + hex_lower(digest.bytes_view())),
            (size == expected_size && digest.bytes_view() == sha256(digest_message(domain@, bytes@))
                && bytes_hold_secret(bytes@, self.secret_list())) ==> (r matches Err(e)
                && e matches PongError::Integrity(m) && m@
                == "configured secret detected in CAS object"@),
    {
        let actual = digest_for(domain, bytes);
        if size != expected_size || !actual.same_as(&digest) {
            let mut message = chars_of("immutable CAS collision or corrupt object ");
            let d = chars_of(digest.to_hex().as_str());
            append_chars(&mut message, d.as_slice());
            return Err(PongError::Integrity(string_from_chars(message.as_slice())));
        }
        if self.redactor.contains_secret(bytes) {
            return Err(PongError::Integrity(text_of("configured secret detected in CAS object")));
        }
        Ok(())
    }

    /// Opens the startup scan of the store's tree. A `StartupScan` fault in
    /// the plan refuses startup with its error and is used up; otherwise the
    /// caller walks the tree with [`scan_entry_step`] and
    /// [`Cas::check_owned_bytes`].
    pub fn begin_startup_scan(&mut self) -> (r: Result<(), PongError>)
        ensures
            final(self).objects_view() == old(self).objects_view(),
            final(self).quarantined_view() == old(self).quarantined_view(),
            final(self).staging_view() == old(self).staging_view(),
            final(self).root_view() == old(self).root_view(),
            final(self).secret_list() == old(self).secret_list(),
            ({
                let action = match old(self).failpoints_view().armed_view() {
                    Some((p, a)) => if p == CasFailPoint::StartupScan {
                        a
                    } else {
                        CasFaultAction::Continue
                    },
                    None => CasFaultAction::Continue,
                };
                if action == CasFaultAction::Continue {
                    r is Ok
                } else {
                    r matches Err(e) && fault_error_spec(CasFailPoint::StartupScan, action, e)
                }
            }),
            match old(self).failpoints_view().armed_view() {
                Some((p, _)) => if p == CasFailPoint::StartupScan {
                    final(self).failpoints_view().armed_view() is None
                } else {
                    final(self).failpoints_view() == old(self).failpoints_view()
                },
                None => final(self).failpoints_view() == old(self).failpoints_view(),
            },
    {
        let action = self.take_fault(CasFailPoint::StartupScan);
        match action {
            CasFaultAction::Continue => Ok(()),
            _ => Err(fault_error(CasFailPoint::StartupScan, action)),
        }
    }

    /// Checks the bytes of one regular file found under the store's root
    /// against the byte policy; a secret anywhere blocks startup.
    pub fn check_owned_bytes(&self, bytes: &[u8]) -> (r: Result<(), PongError>)
        ensures
            r is Ok <==> !bytes_hold_secret(bytes@, self.secret_list()),
            r matches Err(e) ==> e matches PongError::Integrity(m) && m@
                == "configured secret detected in persisted bytes at "@ + "CAS-owned bytes"@,
    {
        self.redactor.assert_clean_bytes(bytes, "CAS-owned bytes")
    }
}

/// What a store accepts, it gives back: after a publication of `bytes`
/// under their own digest answers `Ok`, reading that digest answers `Ok`
/// with the stored bytes, which are `bytes` themselves when the object was
/// new.
pub proof fn lemma_published_object_reads_back(
    a: Cas,
    b: Cas,
    c: Cas,
    domain: Seq<char>,
    bytes: Seq<u8>,
    r: Result<Vec<u8>, PongError>,
)
    requires
        publication_outcome(a, b, domain, sha256(digest_message(domain, bytes)), bytes, Ok(())),
        read_outcome(b, c, domain, sha256(digest_message(domain, bytes)), r),
    ensures
        r is Ok,
        a.stored(sha256(digest_message(domain, bytes))) is None ==> (r matches Ok(v) && v@ == bytes),
        a.stored(sha256(digest_message(domain, bytes))) matches Some(s) ==> (r matches Ok(v) && v@
            == s),
{
    let d = sha256(digest_message(domain, bytes));
    match object_index(a.objects_view(), d) {
        Some(i) => {},
        None => {
            let objs = b.objects_view();
            let n = a.objects_view().len();
            assert forall|j: int| 0 <= j < n implies (#[trigger] objs[j]).digest.bytes_view() != d by {
                assert(objs[j] == objs.drop_last()[j]);
                if a.objects_view()[j].digest.bytes_view() == d {
                    lemma_first_object_exists(a.objects_view(), d, j);
                }
            }
            assert(is_first_object(objs, d, n as int));
            lemma_object_index(objs, d, n as int);
        },
    }
}

/// Where the first object stored under `digest` stands, if any.
fn find_object(objects: &Vec<StoredObject>, digest: &Digest) -> (r: Option<usize>)
    ensures
        match r {
            Some(i) => is_first_object(objects@, digest.bytes_view(), i as int),
            None => forall|i: int|
                0 <= i < objects@.len() ==> (#[trigger] objects@[i]).digest.bytes_view()
                    != digest.bytes_view(),
        },
{
    let mut i: usize = 0;
    while i < objects.len()
        invariant
            i <= objects@.len(),
            forall|k: int| 0 <= k < i ==> (#[trigger] objects@[k]).digest.bytes_view()
                != digest.bytes_view(),
        decreases objects@.len() - i,
    {
        if objects[i].digest.same_as(digest) {
            return Some(i);
        }
        i = i + 1;
    }
    None
}

/// Whether no object's bytes carry a secret of `redactor`.
fn objects_clean(redactor: &Redactor, objects: &Vec<StoredObject>) -> (r: bool)
    ensures
        r <==> forall|i: int|
            0 <= i < objects@.len() ==> !bytes_hold_secret(
                (#[trigger] objects@[i]).bytes@,
                redactor.secret_list(),
            ),
{
    let mut i: usize = 0;
    while i < objects.len()
        invariant
            i <= objects@.len(),
            forall|k: int|
                0 <= k < i ==> !bytes_hold_secret(
                    (#[trigger] objects@[k]).bytes@,
                    redactor.secret_list(),
                ),
        decreases objects@.len() - i,
    {
        if redactor.contains_secret(objects[i].bytes.as_slice()) {
            return false;
        }
        i = i + 1;
    }
    true
}

/// Whether no file's bytes carry a secret of `redactor`.
fn files_clean(redactor: &Redactor, files: &Vec<Vec<u8>>) -> (r: bool)
    ensures
        r <==> forall|i: int|
            0 <= i < files@.len() ==> !bytes_hold_secret((#[trigger] files@[i])@, redactor.secret_list()),
{
    let mut i: usize = 0;
    while i < files.len()
        invariant
            i <= files@.len(),
            forall|k: int|
                0 <= k < i ==> !bytes_hold_secret((#[trigger] files@[k])@, redactor.secret_list()),
        decreases files@.len() - i,
    {
        if redactor.contains_secret(files[i].as_slice()) {
            return false;
        }
        i = i + 1;
    }
    true
}

/// What the startup walk does with one entry of the tree.
#[derive(Debug)]
pub enum ScanStep {
    Skip,
    Descend,
    CheckBytes,
    Refuse(PongError),
}

/// The repository's own lock file, which the walk leaves alone.
pub open spec fn is_repository_lock(parent_name: Seq<char>, child_name: Seq<char>) -> bool {
    child_name == "repository.lock"@ && parent_name == "locks"@
}

/// Decides one step of the startup walk: the repository lock under `locks`
/// is skipped, a link refuses the tree, a directory is entered, a regular
/// file has its bytes checked, and any other entry refuses the tree.
pub fn scan_entry_step(
    parent_name: &str,
    child_name: &str,
    child_path: &str,
    kind: EntryKind,
) -> (r: ScanStep)
    ensures
        is_repository_lock(parent_name@, child_name@) ==> r is Skip,
        !is_repository_lock(parent_name@, child_name@) ==> match kind {
            EntryKind::Link => r matches ScanStep::Refuse(e) && e matches PongError::Integrity(
                m,
            ) && m@ == "CAS tree contains a symlink or reparse point"@,
            EntryKind::Directory => r is Descend,
            EntryKind::File => r is CheckBytes,
            EntryKind::Other => r matches ScanStep::Refuse(e) && e matches PongError::Integrity(
                m,
            ) && m@ == "CAS tree contains a non-regular entry: "@ + child_path@,
        },
{
    if str_equal(child_name, "repository.lock") && str_equal(parent_name, "locks") {
        return ScanStep::Skip;
    }
    match kind {
        EntryKind::Link => ScanStep::Refuse(
            PongError::Integrity(text_of("CAS tree contains a symlink or reparse point")),
        ),
        EntryKind::Directory => ScanStep::Descend,
        EntryKind::File => ScanStep::CheckBytes,
        EntryKind::Other => {
            let mut message = chars_of("CAS tree contains a non-regular entry: ");
            let path = chars_of(child_path);
            append_chars(&mut message, path.as_slice());
            ScanStep::Refuse(PongError::Integrity(string_from_chars(message.as_slice())))
        },
    }
}

pub proof fn lemma_hex_lower_len(bytes: Seq<u8>)
    ensures
        hex_lower(bytes).len() == 2 * bytes.len(),
    decreases bytes.len(),
{
    if bytes.len() > 0 {
        lemma_hex_lower_len(bytes.drop_last());
    }
}


proof fn lemma_encode_scalar_no_nul(c: char)
    requires
        c != '\0',
    ensures
        forall|i: int|
            0 <= i < encode_scalar(c as u32).len() ==> #[trigger] encode_scalar(c as u32)[i] != 0u8,
{
    let u = c as u32;
    vstd::utf8::char_is_scalar(c);
    vstd::utf8::char_u32_cast(c, u);
    assert(u != 0) by {
        if u == 0 {
            vstd::utf8::char_u32_cast('\0', 0u32);
        }
    }
    if has_width_1_encoding(u) {
        assert(leading_byte_width_1(u) != 0u8) by (bit_vector)
            requires
                u != 0,
                u <= 0x7F,
        ;
    } else if has_width_2_encoding(u) {
        assert(leading_byte_width_2(u) != 0u8) by (bit_vector);
        assert(last_continuation_byte(u) != 0u8) by (bit_vector);
    } else if has_width_3_encoding(u) {
        assert(leading_byte_width_3(u) != 0u8) by (bit_vector);
        assert(second_last_continuation_byte(u) != 0u8) by (bit_vector);
        assert(last_continuation_byte(u) != 0u8) by (bit_vector);
    } else {
        assert(leading_byte_width_4(u) != 0u8) by (bit_vector);
        assert(third_last_continuation_byte(u) != 0u8) by (bit_vector);
        assert(second_last_continuation_byte(u) != 0u8) by (bit_vector);
        assert(last_continuation_byte(u) != 0u8) by (bit_vector);
    }
}

proof fn lemma_encode_utf8_no_nul(d: Seq<char>)
    requires
        !d.contains('\0'),
    ensures
        forall|i: int| 0 <= i < encode_utf8(d).len() ==> #[trigger] encode_utf8(d)[i] != 0u8,
    decreases d.len(),
{
    if d.len() > 0 {
        let rest = d.drop_first();
        assert(!rest.contains('\0')) by {
            if rest.contains('\0') {
                let k = choose|k: int| 0 <= k < rest.len() && rest[k] == '\0';
                assert(d[k + 1] == '\0');
            }
        }
        assert(d[0] != '\0');
        lemma_encode_scalar_no_nul(d[0]);
        lemma_encode_utf8_no_nul(rest);
        let head = encode_scalar(d[0] as u32);
        assert forall|i: int| 0 <= i < encode_utf8(d).len() implies #[trigger] encode_utf8(d)[i]
            != 0u8 by {
            if i < head.len() {
                assert(encode_utf8(d)[i] == head[i]);
            } else {
                assert(encode_utf8(d)[i] == encode_utf8(rest)[i - head.len()]);
            }
        }
    }
}

/// The digested message is unambiguous: under valid domains, equal
/// messages come only from the same domain and the same bytes, so no
/// (domain, bytes) pair can be read as another.
pub proof fn lemma_digest_message_unambiguous(
    domain_a: Seq<char>,
    bytes_a: Seq<u8>,
    domain_b: Seq<char>,
    bytes_b: Seq<u8>,
)
    requires
        domain_is_valid(domain_a),
        domain_is_valid(domain_b),
        digest_message(domain_a, bytes_a) == digest_message(domain_b, bytes_b),
    ensures
        domain_a == domain_b,
        bytes_a == bytes_b,
{
    let ea = encode_utf8(domain_a);
    let eb = encode_utf8(domain_b);
    let m = digest_message(domain_a, bytes_a);
    lemma_encode_utf8_no_nul(domain_a);
    lemma_encode_utf8_no_nul(domain_b);
    if ea.len() < eb.len() {
        assert(m[ea.len() as int] == 0u8);
        assert(m[ea.len() as int] == eb[ea.len() as int]);
    }
    if eb.len() < ea.len() {
        assert(m[eb.len() as int] == 0u8);
        assert(m[eb.len() as int] == ea[eb.len() as int]);
    }
    assert(ea.len() == eb.len());
    assert(ea =~= m.take(ea.len() as int));
    assert(eb =~= m.take(ea.len() as int));
    assert(bytes_a =~= m.skip(ea.len() as int + 1));
    assert(bytes_b =~= m.skip(ea.len() as int + 1));
    vstd::utf8::encode_utf8_decode_utf8(domain_a);
    vstd::utf8::encode_utf8_decode_utf8(domain_b);
}


proof fn lemma_hex_char_ascii(n: int)
    requires
        0 <= n < 16,
    ensures
        '\0' <= hex_char(n) <= '\u{7f}',
        is_hex_byte(hex_char(n) as u8),
        hex_value(hex_char(n) as u8) == n,
        !(65 <= hex_char(n) as u8 <= 90),
{
}


proof fn lemma_hex_lower_index(bytes: Seq<u8>)
    ensures
        hex_lower(bytes).len() == 2 * bytes.len(),
        forall|k: int|
            0 <= k < bytes.len() ==> #[trigger] hex_lower(bytes)[2 * k] == hex_char(
                (bytes[k] / 16) as int,
            ) && hex_lower(bytes)[2 * k + 1] == hex_char((bytes[k] % 16) as int),
    decreases bytes.len(),
{
    if bytes.len() > 0 {
        let init = bytes.drop_last();
        lemma_hex_lower_index(init);
        assert forall|k: int| 0 <= k < bytes.len() implies #[trigger] hex_lower(bytes)[2 * k]
            == hex_char((bytes[k] / 16) as int) && hex_lower(bytes)[2 * k + 1] == hex_char(
            (bytes[k] % 16) as int,
        ) by {
            if k < init.len() {
                assert(init[k] == bytes[k]);
                assert(hex_lower(bytes)[2 * k] == hex_lower(init)[2 * k]);
                assert(hex_lower(bytes)[2 * k + 1] == hex_lower(init)[2 * k + 1]);
            }
        }
    }
}

/// Different digests are stored at different paths: under one store root,
/// two digests whose object paths agree are the same digest.
pub proof fn lemma_object_paths_are_distinct(root: Seq<char>, a: Digest, b: Digest)
    requires
        object_path_spec(root, a) == object_path_spec(root, b),
    ensures
        a.bytes_view() == b.bytes_view(),
{
    reveal_strlit("objects");
    let base = path_join(root, "objects"@);
    assert(base.len() > 0 && base.last() == 's');
    let ha = hex_lower(a.bytes_view());
    let hb = hex_lower(b.bytes_view());
    lemma_hex_lower_index(a.bytes_view());
    lemma_hex_lower_index(b.bytes_view());
    lemma_hex_char_ascii((a.bytes_view()[0] / 16) as int);
    lemma_hex_char_ascii((b.bytes_view()[0] / 16) as int);
    lemma_hex_char_ascii((a.bytes_view()[1] / 16) as int);
    lemma_hex_char_ascii((b.bytes_view()[1] / 16) as int);
    let k0: int = 0;
    assert(ha[2 * k0] == hex_char((a.bytes_view()[k0] / 16) as int));
    assert(hb[2 * k0] == hex_char((b.bytes_view()[k0] / 16) as int));
    let k1: int = 1;
    assert(ha[2 * k1] == hex_char((a.bytes_view()[k1] / 16) as int));
    assert(hb[2 * k1] == hex_char((b.bytes_view()[k1] / 16) as int));
    assert(ha.take(2)[0] != '/' && hb.take(2)[0] != '/');
    assert(ha.skip(2)[0] != '/' && hb.skip(2)[0] != '/');
    let pa = path_join(base, ha.take(2));
    let pb = path_join(base, hb.take(2));
    assert(pa == base + seq!['/'] + ha.take(2));
    assert(pb == base + seq!['/'] + hb.take(2));
    assert(pa.last() != '/' && pb.last() != '/');
    let fa = pa + seq!['/'] + ha.skip(2);
    let fb = pb + seq!['/'] + hb.skip(2);
    assert(object_path_spec(root, a) == fa);
    assert(object_path_spec(root, b) == fb);
    assert(fa.len() == fb.len());
    assert(ha =~= fa.skip(base.len() + 1int).take(2) + fa.skip(base.len() + 4int));
    assert(hb =~= fb.skip(base.len() + 1int).take(2) + fb.skip(base.len() + 4int));
    assert(ha == hb);
    lemma_hex_round_trip(a.bytes_view());
    lemma_hex_round_trip(b.bytes_view());
}

/// Hex text decodes back to the bytes it encodes: the UTF-8 bytes of
/// `hex_lower(bytes)` are well-formed hex, two digits per byte, and decode
/// to `bytes`. So a digest's hex form parses back to the same digest.
pub proof fn lemma_hex_round_trip(bytes: Seq<u8>)
    ensures
        encode_utf8(hex_lower(bytes)).len() == 2 * bytes.len(),
        hex_decodes(encode_utf8(hex_lower(bytes))),
        hex_decoded(encode_utf8(hex_lower(bytes))) == bytes,
{
    let h = hex_lower(bytes);
    lemma_hex_lower_index(bytes);
    assert forall|i: int| 0 <= i < h.len() implies '\0' <= #[trigger] h[i] <= '\u{7f}'
        && is_hex_byte(h[i] as u8) by {
        let k = i / 2;
        assert(0 <= k < bytes.len());
        assert(h[2 * k] == hex_char((bytes[k] / 16) as int));
        if i % 2 == 0 {
            assert(i == 2 * k);
            lemma_hex_char_ascii((bytes[k] / 16) as int);
        } else {
            assert(i == 2 * k + 1);
            lemma_hex_char_ascii((bytes[k] % 16) as int);
        }
    }
    assert(vstd::utf8::is_ascii_chars(h));
    vstd::utf8::is_ascii_chars_encode_utf8(h);
    let e = encode_utf8(h);
    assert forall|i: int| 0 <= i < e.len() implies is_hex_byte(#[trigger] e[i]) by {
        assert(h[i] as u8 == e[i]);
    }
    assert forall|k: int| 0 <= k < bytes.len() implies #[trigger] hex_decoded(e)[k] == bytes[k] by {
        let hi = (bytes[k] / 16) as int;
        let lo = (bytes[k] % 16) as int;
        lemma_hex_char_ascii(hi);
        lemma_hex_char_ascii(lo);
        assert(h[2 * k] as u8 == e[2 * k]);
        assert(h[2 * k + 1] as u8 == e[2 * k + 1]);
        assert(hex_value(e[2 * k]) == hi);
        assert(hex_value(e[2 * k + 1]) == lo);
    }
    assert(hex_decoded(e) =~= bytes);
}


/// An ASCII byte in lower case.
pub open spec fn ascii_lower_byte(b: u8) -> u8 {
    if 65 <= b <= 90 {
        (b + 32) as u8
    } else {
        b
    }
}

/// ASCII text in lower case, byte by byte.
pub open spec fn ascii_lowercase(b: Seq<u8>) -> Seq<u8> {
    Seq::new(b.len(), |i: int| ascii_lower_byte(b[i]))
}

/// Hex text decodes to the bytes whose lower-case hex is that text in lower
/// case: `to_hex` of a parsed digest is the input lowercased.
pub proof fn lemma_hex_text_is_lowercased(b: Seq<u8>)
    requires
        hex_decodes(b),
    ensures
        encode_utf8(hex_lower(hex_decoded(b))) == ascii_lowercase(b),
{
    let x = hex_decoded(b);
    let h = hex_lower(x);
    lemma_hex_lower_index(x);
    assert forall|i: int| 0 <= i < h.len() implies '\0' <= #[trigger] h[i] <= '\u{7f}' by {
        let k = i / 2;
        assert(0 <= k < x.len());
        assert(h[2 * k] == hex_char((x[k] / 16) as int));
        if i % 2 == 0 {
            assert(i == 2 * k);
            lemma_hex_char_ascii((x[k] / 16) as int);
        } else {
            assert(i == 2 * k + 1);
            lemma_hex_char_ascii((x[k] % 16) as int);
        }
    }
    assert(vstd::utf8::is_ascii_chars(h));
    vstd::utf8::is_ascii_chars_encode_utf8(h);
    let e = encode_utf8(h);
    assert(e.len() == b.len());
    assert forall|i: int| 0 <= i < e.len() implies #[trigger] e[i] == ascii_lowercase(b)[i] by {
        let k = i / 2;
        let hi = hex_value(b[2 * k]);
        let lo = hex_value(b[2 * k + 1]);
        assert(is_hex_byte(b[2 * k]) && is_hex_byte(b[2 * k + 1]));
        assert(0 <= hi < 16 && 0 <= lo < 16);
        assert(x[k] == (hi * 16 + lo) as u8);
        assert(x[k] / 16 == hi && x[k] % 16 == lo) by (nonlinear_arith)
            requires
                x[k] == (hi * 16 + lo) as u8,
                0 <= hi < 16,
                0 <= lo < 16,
        ;
        lemma_hex_char_ascii(hi);
        lemma_hex_char_ascii(lo);
        assert(0 <= k < x.len());
        assert(h[2 * k] == hex_char(hi) && h[2 * k + 1] == hex_char(lo));
        assert(h[i] as u8 == e[i]);
        if i % 2 == 0 {
            assert(i == 2 * k);
            let y = hex_char(hi) as u8;
            assert(e[i] == y);
            assert(y == ascii_lower_byte(b[i]));
        } else {
            assert(i == 2 * k + 1);
            let y = hex_char(lo) as u8;
            assert(e[i] == y);
            assert(y == ascii_lower_byte(b[i]));
        }
    }
    assert(e =~= ascii_lowercase(b));
}

/// `Digest::from_hex` accepts what `Digest::to_hex` writes and gives the
/// same digest bytes back.
pub proof fn lemma_digest_hex_round_trip(d: Digest)
    ensures
        hex_decodes(encode_utf8(hex_lower(d.bytes_view()))),
        encode_utf8(hex_lower(d.bytes_view())).len() == 64,
        hex_decoded(encode_utf8(hex_lower(d.bytes_view()))) == d.bytes_view(),
{
    assert(d.bytes_view().len() == 32);
    lemma_hex_round_trip(d.bytes_view());
}

} // verus!
