//! Repository ownership and startup compatibility rules.
//!
//! A repository owns the `.pong` layout under a project root. Before the
//! metadata store is opened, its root document is checked: either the
//! legacy marker or the generation selector, and for a selector the
//! manifest of the active generation. Migrations to a new generation are
//! named by checked path components and are planned under a digest of
//! their inputs; an armed one-shot failpoint lets a test stop a migration
//! at any of its durable boundaries.
use crate::canonical::{
    append_chars, canonical_bytes, canonical_text, join_members, member_texts, quoted, sort_pairs,
};
use crate::cas::{digest_hex, digest_message, hex_lower, sha256, ScanStep};
use crate::error::{io_error_spec, text_of, HostPlatform, IoErrorKind, IoFailure, PongError};
use crate::json::JsonValue;
use crate::path::{join, path_join, EntryKind};
use crate::text::{
    chars_of, concat, decimal, is_ascii_alnum, is_ascii_alnum_char, is_ascii_hex,
    is_ascii_hex_char, str_equal, string_from_chars, u64_decimal,
};
use vstd::prelude::*;
use vstd::utf8::encode_utf8;

verus! {

broadcast use vstd::string::group_string_axioms;

/// Repository format written by this crate.
pub const REPOSITORY_FORMAT: &'static str = "0.1";

/// Version of the on-disk repository marker schema.
pub const REPOSITORY_MARKER_VERSION: u32 = 1;

/// Version for the first metadata/object schema family.
pub const REPOSITORY_SCHEMA_VERSION: &'static str = "0.1";

/// Repository format written to generation-backed metadata stores.
pub const GENERATION_REPOSITORY_FORMAT: &'static str = "0.2";

/// Schema version for repository generation metadata.
pub const GENERATION_SCHEMA_VERSION: &'static str = "0.2";

/// Version of the repository selector schema stored at `.pong/repository.json`.
pub const REPOSITORY_SELECTOR_VERSION: u32 = 2;

pub const STORAGE_DRIVER: &'static str = "cas+sqlite";

pub const MARKER_FILENAME: &'static str = "repository.json";

pub const METADATA_FILENAME: &'static str = "metadata.sqlite";

pub const GENERATION_MANIFEST_FILENAME: &'static str = "generation.json";

pub const REPOSITORY_LOCK_FILENAME: &'static str = "repository.lock";

#[derive(Clone, Debug, Eq, PartialEq)]
pub struct RepositorySelector {
    /// Kept under the legacy marker field name so an older reader sees an
    /// incompatible version and refuses before opening the metadata store.
    pub marker_version: u32,
    pub repository_format: String,
    pub schema_version: String,
    pub storage_driver: String,
    pub active_generation: String,
    pub migration_id: String,
    pub generation_manifest_digest: String,
}

#[derive(Clone, Debug, Eq, PartialEq)]
pub struct RepositoryGenerationManifest {
    pub manifest_version: u32,
    pub generation_id: String,
    pub migration_id: String,
    pub repository_format: String,
    pub schema_version: String,
    pub storage_driver: String,
    pub source_marker_digest: String,
    pub metadata_digest: String,
    pub metadata_size: u64,
    pub redaction_profile_id: String,
    pub redaction_profile_version: String,
}

#[derive(Clone, Debug, Eq, PartialEq)]
pub struct MigrationSpec {
    pub migration_id: String,
    pub target_generation_id: String,
}

impl MigrationSpec {
    pub fn new(migration_id: &str, target_generation_id: &str) -> (r: MigrationSpec)
        ensures
            r.migration_id@ == migration_id@,
            r.target_generation_id@ == target_generation_id@,
    {
        MigrationSpec {
            migration_id: text_of(migration_id),
            target_generation_id: text_of(target_generation_id),
        }
    }
}

#[derive(Clone, Debug, Eq, PartialEq)]
pub struct MigrationOutcome {
    pub migration_id: String,
    pub source_generation_id: String,
    pub target_generation_id: String,
    pub plan_digest: String,
    pub selector_digest: String,
    pub generation_manifest_digest: String,
    pub already_active: bool,
}

/// The durable boundaries of a migration.
#[derive(Clone, Copy, Debug, Eq, PartialEq, Structural)]
pub enum MigrationFailpoint {
    Preflight,
    TargetAllocated,
    AfterBackup,
    AfterCheckpoint,
    AfterVerify,
    BeforeSelectorReplace,
    AfterSelectorReplace,
    AfterSelectorDirectorySync,
    AfterJournalFinalize,
}

pub open spec fn migration_point_label(point: MigrationFailpoint) -> Seq<char> {
    match point {
        MigrationFailpoint::Preflight => "preflight"@,
        MigrationFailpoint::TargetAllocated => "target_allocated"@,
        MigrationFailpoint::AfterBackup => "after_backup"@,
        MigrationFailpoint::AfterCheckpoint => "after_checkpoint"@,
        MigrationFailpoint::AfterVerify => "after_verify"@,
        MigrationFailpoint::BeforeSelectorReplace => "before_selector_replace"@,
        MigrationFailpoint::AfterSelectorReplace => "after_selector_replace"@,
        MigrationFailpoint::AfterSelectorDirectorySync => "after_selector_directory_sync"@,
        MigrationFailpoint::AfterJournalFinalize => "after_journal_finalize"@,
    }
}

impl MigrationFailpoint {
    pub fn label(self) -> (r: &'static str)
        ensures
            r@ == migration_point_label(self),
    {
        match self {
            MigrationFailpoint::Preflight => "preflight",
            MigrationFailpoint::TargetAllocated => "target_allocated",
            MigrationFailpoint::AfterBackup => "after_backup",
            MigrationFailpoint::AfterCheckpoint => "after_checkpoint",
            MigrationFailpoint::AfterVerify => "after_verify",
            MigrationFailpoint::BeforeSelectorReplace => "before_selector_replace",
            MigrationFailpoint::AfterSelectorReplace => "after_selector_replace",
            MigrationFailpoint::AfterSelectorDirectorySync => "after_selector_directory_sync",
            MigrationFailpoint::AfterJournalFinalize => "after_journal_finalize",
        }
    }
}

/// A one-shot migration fault plan: at most one armed boundary, consumed
/// when reached.
#[derive(Debug, Clone, Copy, Eq, PartialEq)]
pub struct MigrationFailpoints {
    armed: Option<MigrationFailpoint>,
}

impl MigrationFailpoints {
    pub closed spec fn armed_view(self) -> Option<MigrationFailpoint> {
        self.armed
    }

    pub fn disabled() -> (r: MigrationFailpoints)
        ensures
            r.armed_view() is None,
    {
        MigrationFailpoints { armed: None }
    }

    pub fn once(point: MigrationFailpoint) -> (r: MigrationFailpoints)
        ensures
            r.armed_view() == Some(point),
    {
        MigrationFailpoints { armed: Some(point) }
    }

    /// Consume the plan when it is armed at `point`.
    pub fn take_if(&mut self, point: MigrationFailpoint) -> (r: Option<MigrationFailpoint>)
        ensures
            old(self).armed_view() == Some(point) ==> r == Some(point) && final(self).armed_view()
                is None,
            old(self).armed_view() != Some(point) ==> r is None && final(self).armed_view() == old(
                self,
            ).armed_view(),
    {
        match self.armed {
            Some(armed) => {
                if armed == point {
                    self.armed = None;
                    Some(armed)
                } else {
                    None
                }
            },
            None => None,
        }
    }
}

impl Default for MigrationFailpoints {
    fn default() -> (r: MigrationFailpoints)
        ensures
            r.armed_view() is None,
    {
        MigrationFailpoints::disabled()
    }
}

/// Report the armed fault at `point`, consuming the plan.
pub fn fault_if(failpoints: &mut MigrationFailpoints, point: MigrationFailpoint) -> (r: Result<
    (),
    PongError,
>)
    ensures
        old(failpoints).armed_view() == Some(point) ==> (r matches Err(PongError::FaultInjected(m))
            && m@ == "migration_"@ + migration_point_label(point)) && final(failpoints).armed_view()
            is None,
        old(failpoints).armed_view() != Some(point) ==> r is Ok && final(failpoints).armed_view()
            == old(failpoints).armed_view(),
{
    if failpoints.take_if(point).is_some() {
        return Err(PongError::FaultInjected(concat("migration_", point.label())));
    }
    Ok(())
}

/// The durable record of one migration's plan and progress.
#[derive(Clone, Debug, Eq, PartialEq)]
pub struct MigrationJournal {
    pub journal_version: u32,
    pub migration_id: String,
    pub source_generation_id: String,
    pub target_generation_id: String,
    pub plan_digest: String,
    pub source_root_digest: String,
    pub source_metadata_digest: String,
    pub target_metadata_digest: Option<String>,
    pub selector_digest: Option<String>,
    pub status: String,
    pub finalized_at: Option<String>,
}

/// Immutable compatibility marker stored at `.pong/repository.json`.
#[derive(Clone, Debug, Eq, PartialEq)]
pub struct RepositoryMarker {
    pub marker_version: u32,
    pub repository_format: String,
    pub schema_version: String,
    pub storage_driver: String,
}

impl Default for RepositoryMarker {
    fn default() -> (r: RepositoryMarker)
        ensures
            r.marker_version == REPOSITORY_MARKER_VERSION,
            r.repository_format@ == REPOSITORY_FORMAT@,
            r.schema_version@ == REPOSITORY_SCHEMA_VERSION@,
            r.storage_driver@ == STORAGE_DRIVER@,
    {
        RepositoryMarker {
            marker_version: REPOSITORY_MARKER_VERSION,
            repository_format: text_of(REPOSITORY_FORMAT),
            schema_version: text_of(REPOSITORY_SCHEMA_VERSION),
            storage_driver: text_of(STORAGE_DRIVER),
        }
    }
}

impl RepositorySelector {
    /// The marker fields a selector keeps under the legacy names.
    pub fn as_marker_view(&self) -> (r: RepositoryMarker)
        ensures
            r.marker_version == self.marker_version,
            r.repository_format == self.repository_format,
            r.schema_version == self.schema_version,
            r.storage_driver == self.storage_driver,
    {
        RepositoryMarker {
            marker_version: self.marker_version,
            repository_format: self.repository_format.clone(),
            schema_version: self.schema_version.clone(),
            storage_driver: self.storage_driver.clone(),
        }
    }
}

/// The stable paths owned by a local repository.
#[derive(Debug, Eq, PartialEq)]
pub struct RepositoryLayout {
    root: String,
    pong: String,
    marker: String,
    metadata: String,
    cas: String,
    objects: String,
    staging: String,
    quarantine: String,
    generations: String,
    migrations: String,
    locks: String,
}

/// The `.pong` directory of a project root.
pub open spec fn pong_path(root: Seq<char>) -> Seq<char> {
    path_join(root, ".pong"@)
}

impl RepositoryLayout {
    pub closed spec fn root_view(self) -> Seq<char> {
        self.root@
    }

    /// Every path hangs off the root as the layout names it.
    #[verifier::type_invariant]
    spec fn wf(self) -> bool {
        let pong = pong_path(self.root@);
        &&& self.pong@ == pong
        &&& self.marker@ == path_join(pong, "repository.json"@)
        &&& self.metadata@ == path_join(pong, "metadata.sqlite"@)
        &&& self.cas@ == pong
        &&& self.objects@ == path_join(pong, "objects"@)
        &&& self.staging@ == path_join(pong, "staging"@)
        &&& self.quarantine@ == path_join(pong, "quarantine"@)
        &&& self.generations@ == path_join(pong, "generations"@)
        &&& self.migrations@ == path_join(pong, "migrations"@)
        &&& self.locks@ == path_join(pong, "locks"@)
    }

    /// Build the paths from a project root without touching the filesystem.
    pub fn from_root(root: &str) -> (r: RepositoryLayout)
        ensures
            r.root_view() == root@,
    {
        let pong = join(root, ".pong");
        let marker = join(pong.as_str(), MARKER_FILENAME);
        let metadata = join(pong.as_str(), METADATA_FILENAME);
        let cas = pong.clone();
        let objects = join(cas.as_str(), "objects");
        let staging = join(cas.as_str(), "staging");
        let quarantine = join(cas.as_str(), "quarantine");
        let generations = join(pong.as_str(), "generations");
        let migrations = join(pong.as_str(), "migrations");
        let locks = join(pong.as_str(), "locks");
        proof {
            reveal_strlit("repository.json");
            reveal_strlit("metadata.sqlite");
        }
        RepositoryLayout {
            root: text_of(root),
            pong,
            marker,
            metadata,
            cas,
            objects,
            staging,
            quarantine,
            generations,
            migrations,
            locks,
        }
    }

    pub fn root(&self) -> (r: &str)
        ensures
            r@ == self.root_view(),
    {
        self.root.as_str()
    }

    pub fn pong_dir(&self) -> (r: &str)
        ensures
            r@ == pong_path(self.root_view()),
    {
        proof {
            use_type_invariant(self);
        }
        self.pong.as_str()
    }

    pub fn marker_path(&self) -> (r: &str)
        ensures
            r@ == path_join(pong_path(self.root_view()), "repository.json"@),
    {
        proof {
            use_type_invariant(self);
        }
        self.marker.as_str()
    }

    pub fn metadata_path(&self) -> (r: &str)
        ensures
            r@ == path_join(pong_path(self.root_view()), "metadata.sqlite"@),
    {
        proof {
            use_type_invariant(self);
        }
        self.metadata.as_str()
    }

    /// The root of the content-addressed store: the `.pong` directory.
    pub fn cas_root(&self) -> (r: &str)
        ensures
            r@ == pong_path(self.root_view()),
    {
        proof {
            use_type_invariant(self);
        }
        self.cas.as_str()
    }

    pub fn objects_dir(&self) -> (r: &str)
        ensures
            r@ == path_join(pong_path(self.root_view()), "objects"@),
    {
        proof {
            use_type_invariant(self);
        }
        self.objects.as_str()
    }

    pub fn staging_dir(&self) -> (r: &str)
        ensures
            r@ == path_join(pong_path(self.root_view()), "staging"@),
    {
        proof {
            use_type_invariant(self);
        }
        self.staging.as_str()
    }

    pub fn quarantine_dir(&self) -> (r: &str)
        ensures
            r@ == path_join(pong_path(self.root_view()), "quarantine"@),
    {
        proof {
            use_type_invariant(self);
        }
        self.quarantine.as_str()
    }

    pub fn generations_dir(&self) -> (r: &str)
        ensures
            r@ == path_join(pong_path(self.root_view()), "generations"@),
    {
        proof {
            use_type_invariant(self);
        }
        self.generations.as_str()
    }

    pub fn migrations_dir(&self) -> (r: &str)
        ensures
            r@ == path_join(pong_path(self.root_view()), "migrations"@),
    {
        proof {
            use_type_invariant(self);
        }
        self.migrations.as_str()
    }

    pub fn locks_dir(&self) -> (r: &str)
        ensures
            r@ == path_join(pong_path(self.root_view()), "locks"@),
    {
        proof {
            use_type_invariant(self);
        }
        self.locks.as_str()
    }

    pub fn repository_lock_path(&self) -> (r: String)
        ensures
            r@ == path_join(path_join(pong_path(self.root_view()), "locks"@), "repository.lock"@),
    {
        proof {
            use_type_invariant(self);
        }
        proof {
            reveal_strlit("repository.lock");
        }
        join(self.locks.as_str(), REPOSITORY_LOCK_FILENAME)
    }

    pub fn generation_dir(&self, generation_id: &str) -> (r: String)
        ensures
            r@ == path_join(path_join(pong_path(self.root_view()), "generations"@), generation_id@),
    {
        proof {
            use_type_invariant(self);
        }
        join(self.generations.as_str(), generation_id)
    }

    pub fn generation_metadata_path(&self, generation_id: &str) -> (r: String)
        ensures
            r@ == path_join(
                path_join(path_join(pong_path(self.root_view()), "generations"@), generation_id@),
                "metadata.sqlite"@,
            ),
    {
        proof {
            use_type_invariant(self);
        }
        proof {
            reveal_strlit("metadata.sqlite");
        }
        let dir = self.generation_dir(generation_id);
        join(dir.as_str(), METADATA_FILENAME)
    }

    pub fn generation_manifest_path(&self, generation_id: &str) -> (r: String)
        ensures
            r@ == path_join(
                path_join(path_join(pong_path(self.root_view()), "generations"@), generation_id@),
                "generation.json"@,
            ),
    {
        proof {
            use_type_invariant(self);
        }
        proof {
            reveal_strlit("generation.json");
        }
        let dir = self.generation_dir(generation_id);
        join(dir.as_str(), GENERATION_MANIFEST_FILENAME)
    }

    pub fn migration_journal_path(&self, migration_id: &str) -> (r: String)
        ensures
            r@ == path_join(
                path_join(pong_path(self.root_view()), "migrations"@),
                migration_id@ + ".json"@,
            ),
    {
        proof {
            use_type_invariant(self);
        }
        let name = concat(migration_id, ".json");
        join(self.migrations.as_str(), name.as_str())
    }
}

/// A character a path component may hold: ASCII alphanumerics, `-`, `_`
/// and `.`.
pub open spec fn component_char(c: char) -> bool {
    is_ascii_alnum(c) || c == '-' || c == '_' || c == '.'
}

/// The first problem of a path component, if any: empty, `.`, `..` or
/// holding NUL is invalid; any other character outside the safe set is
/// unsafe.
pub open spec fn component_problem(value: Seq<char>) -> Option<Seq<char>> {
    if value.len() == 0 || value == "."@ || value == ".."@ || value.contains('\0') {
        Some(" is invalid"@)
    } else if exists|i: int| 0 <= i < value.len() && !component_char(#[trigger] value[i]) {
        Some(" contains unsafe path characters"@)
    } else {
        None
    }
}

/// An accepted path component names exactly one entry inside its parent:
/// it is not empty, not `.` or `..`, and holds no separator or NUL.
pub proof fn lemma_accepted_components_stay_inside(value: Seq<char>)
    requires
        component_problem(value) is None,
    ensures
        value.len() > 0,
        value != "."@ && value != ".."@,
        !value.contains('/') && !value.contains('\\') && !value.contains('\0'),
{
    if value.contains('/') {
        let i = choose|i: int| 0 <= i < value.len() && value[i] == '/';
        assert(!component_char(value[i]));
    }
    if value.contains('\\') {
        let i = choose|i: int| 0 <= i < value.len() && value[i] == '\\';
        assert(!component_char(value[i]));
    }
}

/// An accepted migration names two different safe components, so its
/// generation directory and journal never coincide.
pub proof fn lemma_accepted_migrations_name_two_entries(spec: MigrationSpec)
    requires
        migration_spec_problem(spec) is None,
    ensures
        spec.migration_id@ != spec.target_generation_id@,
        component_problem(spec.migration_id@) is None,
        component_problem(spec.target_generation_id@) is None,
{
}

fn has_nul(value: &[char]) -> (r: bool)
    ensures
        r == value@.contains('\0'),
{
    let mut i: usize = 0;
    while i < value.len()
        invariant
            i <= value@.len(),
            forall|k: int| 0 <= k < i ==> value@[k] != '\0',
        decreases value@.len() - i,
    {
        if value[i] == '\0' {
            return true;
        }
        i = i + 1;
    }
    false
}

/// Check one path component a caller names: a migration, generation or
/// similar identity that becomes a single directory or file name.
pub fn validate_path_component(value: &str, label: &str) -> (r: Result<(), PongError>)
    ensures
        r is Ok <==> component_problem(value@) is None,
        component_problem(value@) matches Some(p) ==> (r matches Err(PongError::InvalidInput(m))
            && m@ == label@ + p),
{
    let chars = chars_of(value);
    proof {
        reveal_strlit(".");
        reveal_strlit("..");
    }
    if chars.len() == 0 || str_equal(value, ".") || str_equal(value, "..") || has_nul(
        chars.as_slice(),
    ) {
        return Err(PongError::InvalidInput(concat(label, " is invalid")));
    }
    let mut i: usize = 0;
    while i < chars.len()
        invariant
            chars@ == value@,
            !(value@.len() == 0 || value@ == "."@ || value@ == ".."@ || value@.contains('\0')),
            i <= chars@.len(),
            forall|k: int| 0 <= k < i ==> component_char(#[trigger] chars@[k]),
        decreases chars@.len() - i,
    {
        let c = chars[i];
        if !(is_ascii_alnum_char(c) || c == '-' || c == '_' || c == '.') {
            return Err(PongError::InvalidInput(concat(label, " contains unsafe path characters")));
        }
        i = i + 1;
    }
    Ok(())
}

/// A migration names two distinct, safe path components.
pub open spec fn migration_spec_problem(spec: MigrationSpec) -> Option<Seq<char>> {
    if component_problem(spec.migration_id@) is Some {
        Some("migration id"@ + component_problem(spec.migration_id@)->0)
    } else if component_problem(spec.target_generation_id@) is Some {
        Some("generation id"@ + component_problem(spec.target_generation_id@)->0)
    } else if spec.migration_id@ == spec.target_generation_id@ {
        Some("migration id and generation id must be distinct"@)
    } else {
        None
    }
}

pub fn validate_migration_spec(spec: &MigrationSpec) -> (r: Result<(), PongError>)
    ensures
        r is Ok <==> migration_spec_problem(*spec) is None,
        migration_spec_problem(*spec) matches Some(p) ==> (r matches Err(PongError::InvalidInput(m))
            && m@ == p),
{
    validate_path_component(spec.migration_id.as_str(), "migration id")?;
    validate_path_component(spec.target_generation_id.as_str(), "generation id")?;
    if str_equal(spec.migration_id.as_str(), spec.target_generation_id.as_str()) {
        return Err(
            PongError::InvalidInput(text_of("migration id and generation id must be distinct")),
        );
    }
    Ok(())
}

/// `sha256:` followed by exactly 64 hexadecimal digits.
pub open spec fn is_sha256_text(value: Seq<char>) -> bool {
    &&& value.len() == 71
    &&& value.take(7) == "sha256:"@
    &&& forall|i: int| 7 <= i < 71 ==> is_ascii_hex(#[trigger] value[i])
}

pub fn is_sha256_digest(value: &str) -> (r: bool)
    ensures
        r == is_sha256_text(value@),
{
    let chars = chars_of(value);
    let prefix = chars_of("sha256:");
    proof {
        reveal_strlit("sha256:");
    }
    if chars.len() != 71 {
        return false;
    }
    let mut i: usize = 0;
    while i < 7
        invariant
            chars@ == value@,
            prefix@ == "sha256:"@,
            prefix@.len() == 7,
            chars@.len() == 71,
            i <= 7,
            forall|k: int| 0 <= k < i ==> chars@[k] == prefix@[k],
        decreases 7 - i,
    {
        if chars[i] != prefix[i] {
            assert(chars@.take(7)[i as int] != "sha256:"@[i as int]);
            return false;
        }
        i = i + 1;
    }
    assert(chars@.take(7) =~= "sha256:"@);
    while i < 71
        invariant
            chars@ == value@,
            chars@.len() == 71,
            7 <= i <= 71,
            chars@.take(7) == "sha256:"@,
            forall|k: int| 7 <= k < i ==> is_ascii_hex(#[trigger] chars@[k]),
        decreases 71 - i,
    {
        if !is_ascii_hex_char(chars[i]) {
            return false;
        }
        i = i + 1;
    }
    true
}

/// `sha256:` and the hex digest of `bytes` under the repository's byte
/// domain.
pub open spec fn byte_digest_text(bytes: Seq<u8>) -> Seq<char> {
    "sha256:"@ + hex_lower(sha256(digest_message("pong.repository.bytes"@, bytes)))
}

pub fn byte_digest(bytes: &[u8]) -> (r: String)
    ensures
        r@ == byte_digest_text(bytes@),
{
    let hex = digest_hex("pong.repository.bytes", bytes);
    concat("sha256:", hex.as_str())
}

fn member(name: &str, value: JsonValue) -> (r: (String, JsonValue))
    ensures
        r.0@ == name@,
        r.1 == value,
{
    (text_of(name), value)
}

/// The members of the canonical JSON object a migration plan digests, as
/// names and value texts.
pub open spec fn plan_members(
    migration_id: Seq<char>,
    target_generation_id: Seq<char>,
    source_root_digest: Seq<char>,
    source_metadata_digest: Seq<char>,
) -> Seq<(Seq<char>, Seq<char>)> {
    seq![
        ("migration_id"@, quoted(migration_id)),
        ("target_generation_id"@, quoted(target_generation_id)),
        ("source_format"@, quoted(REPOSITORY_FORMAT@)),
        ("target_format"@, quoted(GENERATION_REPOSITORY_FORMAT@)),
        ("source_root_digest"@, quoted(source_root_digest)),
        ("source_metadata_digest"@, quoted(source_metadata_digest)),
    ]
}

/// The canonical text of a migration plan.
pub open spec fn plan_text(
    migration_id: Seq<char>,
    target_generation_id: Seq<char>,
    source_root_digest: Seq<char>,
    source_metadata_digest: Seq<char>,
) -> Seq<char> {
    seq!['{'] + join_members(
        sort_pairs(
            plan_members(
                migration_id,
                target_generation_id,
                source_root_digest,
                source_metadata_digest,
            ),
        ),
    ) + seq!['}']
}

/// The digest of a migration plan: its identities, the source and target
/// formats, and the digests of the source it starts from, as a canonical
/// JSON object.
pub fn plan_digest(spec: &MigrationSpec, source_root_digest: &str, source_metadata_digest: &str) -> (r:
    Result<String, PongError>)
    ensures
        r matches Ok(d) && d@ == byte_digest_text(
            encode_utf8(
                plan_text(
                    spec.migration_id@,
                    spec.target_generation_id@,
                    source_root_digest@,
                    source_metadata_digest@,
                ),
            ),
        ),
{
    let mut members: Vec<(String, JsonValue)> = Vec::new();
    members.push(member("migration_id", JsonValue::text(spec.migration_id.as_str())));
    members.push(
        member("target_generation_id", JsonValue::text(spec.target_generation_id.as_str())),
    );
    members.push(member("source_format", JsonValue::text(REPOSITORY_FORMAT)));
    members.push(member("target_format", JsonValue::text(GENERATION_REPOSITORY_FORMAT)));
    members.push(member("source_root_digest", JsonValue::text(source_root_digest)));
    members.push(member("source_metadata_digest", JsonValue::text(source_metadata_digest)));
    proof {
        reveal_with_fuel(member_texts, 7);
        assert(member_texts(members@) =~= plan_members(
            spec.migration_id@,
            spec.target_generation_id@,
            source_root_digest@,
            source_metadata_digest@,
        ));
    }
    let value = JsonValue::Object(members);
    let bytes = canonical_bytes(&value)?;
    Ok(byte_digest(bytes.as_slice()))
}

fn number_text(n: u32) -> (r: String)
    ensures
        r@ == decimal(n as nat),
{
    let digits = u64_decimal(n as u64);
    string_from_chars(digits.as_slice())
}

fn unsupported(message: String) -> (e: PongError)
    ensures
        e == PongError::Unsupported(message),
{
    PongError::Unsupported(message)
}

/// The first way a legacy marker differs from what this reader supports.
pub open spec fn marker_problem(marker: RepositoryMarker) -> Option<Seq<char>> {
    if marker.marker_version != REPOSITORY_MARKER_VERSION {
        Some(
            "repository marker version "@ + decimal(marker.marker_version as nat)
                + " is unsupported; expected "@ + decimal(REPOSITORY_MARKER_VERSION as nat),
        )
    } else if marker.repository_format@ != REPOSITORY_FORMAT@ {
        Some(
            "repository format "@ + marker.repository_format@ + " is unsupported; expected "@
                + REPOSITORY_FORMAT@,
        )
    } else if marker.schema_version@ != REPOSITORY_SCHEMA_VERSION@ {
        Some(
            "repository schema "@ + marker.schema_version@ + " is unsupported; expected "@
                + REPOSITORY_SCHEMA_VERSION@,
        )
    } else if marker.storage_driver@ != STORAGE_DRIVER@ {
        Some(
            "repository storage driver "@ + marker.storage_driver@ + " is unsupported; expected "@
                + STORAGE_DRIVER@,
        )
    } else {
        None
    }
}

/// Only the supported marker is accepted: a marker passes exactly when its
/// version, format, schema and storage driver are each the supported one.
pub proof fn lemma_only_the_supported_marker_is_accepted(marker: RepositoryMarker)
    ensures
        marker_problem(marker) is None <==> (marker.marker_version == REPOSITORY_MARKER_VERSION
            && marker.repository_format@ == REPOSITORY_FORMAT@ && marker.schema_version@
            == REPOSITORY_SCHEMA_VERSION@ && marker.storage_driver@ == STORAGE_DRIVER@),
{
}

fn unsupported_value(what: &str, value: &str, expected: &str) -> (e: PongError)
    ensures
        e matches PongError::Unsupported(m) && m@ == what@ + value@ + " is unsupported; expected "@
            + expected@,
{
    let a = concat(what, value);
    let b = concat(a.as_str(), " is unsupported; expected ");
    unsupported(concat(b.as_str(), expected))
}

/// Check a legacy marker before anything else is opened.
pub fn validate_marker(marker: &RepositoryMarker) -> (r: Result<(), PongError>)
    ensures
        r is Ok <==> marker_problem(*marker) is None,
        r is Ok <==> (marker.marker_version == REPOSITORY_MARKER_VERSION && marker.repository_format@
            == REPOSITORY_FORMAT@ && marker.schema_version@ == REPOSITORY_SCHEMA_VERSION@
            && marker.storage_driver@ == STORAGE_DRIVER@),
        marker_problem(*marker) matches Some(p) ==> (r matches Err(PongError::Unsupported(m)) && m@
            == p),
{
    if marker.marker_version != REPOSITORY_MARKER_VERSION {
        let found = number_text(marker.marker_version);
        let expected = number_text(REPOSITORY_MARKER_VERSION);
        return Err(
            unsupported_value("repository marker version ", found.as_str(), expected.as_str()),
        );
    }
    if !str_equal(marker.repository_format.as_str(), REPOSITORY_FORMAT) {
        return Err(
            unsupported_value(
                "repository format ",
                marker.repository_format.as_str(),
                REPOSITORY_FORMAT,
            ),
        );
    }
    if !str_equal(marker.schema_version.as_str(), REPOSITORY_SCHEMA_VERSION) {
        return Err(
            unsupported_value(
                "repository schema ",
                marker.schema_version.as_str(),
                REPOSITORY_SCHEMA_VERSION,
            ),
        );
    }
    if !str_equal(marker.storage_driver.as_str(), STORAGE_DRIVER) {
        return Err(
            unsupported_value(
                "repository storage driver ",
                marker.storage_driver.as_str(),
                STORAGE_DRIVER,
            ),
        );
    }
    Ok(())
}

/// Two markers hold the same values.
pub fn same_marker(a: &RepositoryMarker, b: &RepositoryMarker) -> (r: bool)
    ensures
        r == (a.marker_version == b.marker_version && a.repository_format@ == b.repository_format@
            && a.schema_version@ == b.schema_version@ && a.storage_driver@ == b.storage_driver@),
{
    a.marker_version == b.marker_version && str_equal(
        a.repository_format.as_str(),
        b.repository_format.as_str(),
    ) && str_equal(a.schema_version.as_str(), b.schema_version.as_str()) && str_equal(
        a.storage_driver.as_str(),
        b.storage_driver.as_str(),
    )
}

/// The first way a generation selector is unusable, with the error kind it
/// is reported as.
pub open spec fn selector_problem(selector: RepositorySelector) -> Option<PongError> {
    if selector.marker_version != REPOSITORY_SELECTOR_VERSION {
        Some(PongError::Unsupported(arbitrary()))
    } else if selector.repository_format@ != GENERATION_REPOSITORY_FORMAT@
        || selector.schema_version@ != GENERATION_SCHEMA_VERSION@ || selector.storage_driver@
        != STORAGE_DRIVER@ {
        Some(PongError::Unsupported(arbitrary()))
    } else if component_problem(selector.active_generation@) is Some
        || component_problem(selector.migration_id@) is Some {
        Some(PongError::InvalidInput(arbitrary()))
    } else if !is_sha256_text(selector.generation_manifest_digest@) {
        Some(PongError::Integrity(arbitrary()))
    } else {
        None
    }
}

/// Only a supported, well-formed selector is accepted: its version,
/// format, schema and storage driver are the supported ones, its two
/// identities are safe path components, and it names its manifest by a
/// `sha256:` digest.
pub proof fn lemma_only_supported_selectors_are_accepted(selector: RepositorySelector)
    ensures
        selector_problem(selector) is None <==> (selector.marker_version
            == REPOSITORY_SELECTOR_VERSION && selector.repository_format@
            == GENERATION_REPOSITORY_FORMAT@ && selector.schema_version@ == GENERATION_SCHEMA_VERSION@
            && selector.storage_driver@ == STORAGE_DRIVER@ && component_problem(
            selector.active_generation@,
        ) is None && component_problem(selector.migration_id@) is None && is_sha256_text(
            selector.generation_manifest_digest@,
        )),
{
}

/// Only the supported manifest of the named generation is accepted.
pub proof fn lemma_only_supported_manifests_are_accepted(
    manifest: RepositoryGenerationManifest,
    generation_id: Seq<char>,
)
    ensures
        manifest_identity_ok(manifest, generation_id) <==> (manifest.manifest_version == 1
            && manifest.generation_id@ == generation_id && manifest.repository_format@
            == GENERATION_REPOSITORY_FORMAT@ && manifest.schema_version@ == GENERATION_SCHEMA_VERSION@
            && manifest.storage_driver@ == STORAGE_DRIVER@),
{
}

/// Check a generation selector: its version and compatibility identity,
/// its two path components, and the form of its manifest digest.
pub fn validate_selector(selector: &RepositorySelector) -> (r: Result<(), PongError>)
    ensures
        r is Ok <==> selector_problem(*selector) is None,
        selector.marker_version != REPOSITORY_SELECTOR_VERSION ==> (r matches Err(
            PongError::Unsupported(m),
        ) && m@ == "repository selector version "@ + decimal(selector.marker_version as nat)
            + " is unsupported"@),
        (selector.marker_version == REPOSITORY_SELECTOR_VERSION && selector_problem(*selector)
            matches Some(PongError::Unsupported(_))) ==> (r matches Err(PongError::Unsupported(m))
            && m@ == "repository selector compatibility identity is unsupported"@),
        (selector_problem(*selector) matches Some(PongError::InvalidInput(_))) ==> (r matches Err(
            PongError::InvalidInput(m),
        ) && (m@ == "active generation"@ + component_problem(selector.active_generation@)->0
            || m@ == "migration id"@ + component_problem(selector.migration_id@)->0)),
        (selector_problem(*selector) matches Some(PongError::Integrity(_))) ==> (r matches Err(
            PongError::Integrity(m),
        ) && m@ == "repository selector manifest digest is invalid"@),
{
    if selector.marker_version != REPOSITORY_SELECTOR_VERSION {
        let found = number_text(selector.marker_version);
        let a = concat("repository selector version ", found.as_str());
        return Err(unsupported(concat(a.as_str(), " is unsupported")));
    }
    if !str_equal(selector.repository_format.as_str(), GENERATION_REPOSITORY_FORMAT) || !str_equal(
        selector.schema_version.as_str(),
        GENERATION_SCHEMA_VERSION,
    ) || !str_equal(selector.storage_driver.as_str(), STORAGE_DRIVER) {
        return Err(
            unsupported(text_of("repository selector compatibility identity is unsupported")),
        );
    }
    validate_path_component(selector.active_generation.as_str(), "active generation")?;
    validate_path_component(selector.migration_id.as_str(), "migration id")?;
    if !is_sha256_digest(selector.generation_manifest_digest.as_str()) {
        return Err(PongError::Integrity(text_of("repository selector manifest digest is invalid")));
    }
    Ok(())
}

/// The manifest bytes read from disk are the ones the selector names.
pub fn check_manifest_digest(manifest_bytes: &[u8], expected_digest: &str) -> (r: Result<
    (),
    PongError,
>)
    ensures
        r is Ok <==> byte_digest_text(manifest_bytes@) == expected_digest@,
        r is Err ==> (r matches Err(PongError::Integrity(m)) && m@
            == "active generation manifest digest mismatch"@),
{
    let actual = byte_digest(manifest_bytes);
    if !str_equal(actual.as_str(), expected_digest) {
        return Err(PongError::Integrity(text_of("active generation manifest digest mismatch")));
    }
    Ok(())
}

/// The manifest is of the supported version and identity, for the named
/// generation, and names a safe migration.
pub open spec fn manifest_identity_ok(
    manifest: RepositoryGenerationManifest,
    generation_id: Seq<char>,
) -> bool {
    &&& manifest.manifest_version == 1
    &&& manifest.generation_id@ == generation_id
    &&& manifest.repository_format@ == GENERATION_REPOSITORY_FORMAT@
    &&& manifest.schema_version@ == GENERATION_SCHEMA_VERSION@
    &&& manifest.storage_driver@ == STORAGE_DRIVER@
}

pub fn validate_manifest_identity(manifest: &RepositoryGenerationManifest, generation_id: &str) -> (r:
    Result<(), PongError>)
    ensures
        r is Ok <==> manifest_identity_ok(*manifest, generation_id@) && component_problem(
            manifest.migration_id@,
        ) is None,
        !manifest_identity_ok(*manifest, generation_id@) ==> (r matches Err(
            PongError::Unsupported(m),
        ) && m@ == "active generation manifest compatibility identity is unsupported"@),
        (manifest_identity_ok(*manifest, generation_id@) && component_problem(
            manifest.migration_id@,
        ) is Some) ==> (r matches Err(PongError::InvalidInput(m)) && m@ == "migration id"@
            + component_problem(manifest.migration_id@)->0),
{
    if manifest.manifest_version != 1 || !str_equal(manifest.generation_id.as_str(), generation_id)
        || !str_equal(manifest.repository_format.as_str(), GENERATION_REPOSITORY_FORMAT)
        || !str_equal(manifest.schema_version.as_str(), GENERATION_SCHEMA_VERSION) || !str_equal(
        manifest.storage_driver.as_str(),
        STORAGE_DRIVER,
    ) {
        return Err(
            unsupported(
                text_of("active generation manifest compatibility identity is unsupported"),
            ),
        );
    }
    validate_path_component(manifest.migration_id.as_str(), "migration id")?;
    Ok(())
}

/// The manifest attests a non-empty metadata image and the source marker,
/// each by a well-formed digest.
pub fn validate_manifest_attestations(manifest: &RepositoryGenerationManifest) -> (r: Result<
    (),
    PongError,
>)
    ensures
        r is Ok <==> manifest.metadata_size != 0 && is_sha256_text(manifest.metadata_digest@)
            && is_sha256_text(manifest.source_marker_digest@),
        !(manifest.metadata_size != 0 && is_sha256_text(manifest.metadata_digest@)) ==> (r matches Err(
            PongError::Integrity(m),
        ) && m@ == "active generation metadata attestation is invalid"@),
        (manifest.metadata_size != 0 && is_sha256_text(manifest.metadata_digest@)
            && !is_sha256_text(manifest.source_marker_digest@)) ==> (r matches Err(
            PongError::Integrity(m),
        ) && m@ == "active generation source marker attestation is invalid"@),
{
    if manifest.metadata_size == 0 || !is_sha256_digest(manifest.metadata_digest.as_str()) {
        return Err(
            PongError::Integrity(text_of("active generation metadata attestation is invalid")),
        );
    }
    if !is_sha256_digest(manifest.source_marker_digest.as_str()) {
        return Err(
            PongError::Integrity(text_of("active generation source marker attestation is invalid")),
        );
    }
    Ok(())
}

/// How a failure to open the active generation is reported: a SQLite
/// failure is an integrity failure of the generation; anything else is
/// reported as it is.
pub fn classify_generation_error(error: PongError) -> (r: PongError)
    ensures
        error is Sqlite ==> (r matches PongError::Integrity(m) && m@
            == "active generation SQLite database failed to open or verify"@),
        !(error is Sqlite) ==> r == error,
{
    match error {
        PongError::Sqlite(_) => PongError::Integrity(
            text_of("active generation SQLite database failed to open or verify"),
        ),
        other => other,
    }
}

/// Whether an object has a member named `name`.
pub open spec fn has_key(value: JsonValue, name: Seq<char>) -> bool {
    match value {
        JsonValue::Object(entries) => exists|i: int|
            0 <= i < entries@.len() && (#[trigger] entries@[i]).0@ == name,
        _ => false,
    }
}

fn entries_have(entries: &Vec<(String, JsonValue)>, name: &str) -> (r: bool)
    ensures
        r == exists|i: int| 0 <= i < entries@.len() && (#[trigger] entries@[i]).0@ == name@,
{
    let mut i: usize = 0;
    while i < entries.len()
        invariant
            i <= entries@.len(),
            forall|k: int| 0 <= k < i ==> (#[trigger] entries@[k]).0@ != name@,
        decreases entries@.len() - i,
    {
        if str_equal(entries[i].0.as_str(), name) {
            assert(entries@[i as int].0@ == name@);
            return true;
        }
        i = i + 1;
    }
    false
}

/// Whether the root document is a generation selector rather than a legacy
/// marker: it names an active generation or a manifest digest.
pub fn is_selector_document(value: &JsonValue) -> (r: bool)
    ensures
        r == (has_key(*value, "active_generation"@) || has_key(
            *value,
            "generation_manifest_digest"@,
        )),
{
    match value {
        JsonValue::Object(entries) => entries_have(entries, "active_generation") || entries_have(
            entries,
            "generation_manifest_digest",
        ),
        _ => false,
    }
}

/// The selector and the manifest it names describe the same migration and
/// generation.
pub fn check_selector_manifest(
    selector: &RepositorySelector,
    manifest: &RepositoryGenerationManifest,
) -> (r: Result<(), PongError>)
    ensures
        r is Ok <==> selector.migration_id@ == manifest.migration_id@ && selector.active_generation@
            == manifest.generation_id@,
        r is Err ==> (r matches Err(PongError::RecoveryRequired(m)) && m@
            == "active selector and generation manifest disagree"@),
{
    if !str_equal(selector.migration_id.as_str(), manifest.migration_id.as_str()) || !str_equal(
        selector.active_generation.as_str(),
        manifest.generation_id.as_str(),
    ) {
        return Err(
            PongError::RecoveryRequired(text_of("active selector and generation manifest disagree")),
        );
    }
    Ok(())
}

/// The journal of the active migration agrees with the selector and the
/// manifest: same identities, the attested digests, and the plan digest of
/// its own inputs.
pub open spec fn journal_agrees(
    journal: MigrationJournal,
    selector: RepositorySelector,
    manifest: RepositoryGenerationManifest,
) -> bool {
    &&& journal.migration_id@ == selector.migration_id@
    &&& journal.target_generation_id@ == selector.active_generation@
    &&& journal.target_metadata_digest matches Some(d) && d@ == manifest.metadata_digest@
    &&& journal.source_root_digest@ == manifest.source_marker_digest@
    &&& journal.plan_digest@ == byte_digest_text(
        encode_utf8(
            plan_text(
                journal.migration_id@,
                journal.target_generation_id@,
                journal.source_root_digest@,
                journal.source_metadata_digest@,
            ),
        ),
    )
}

pub fn check_journal(
    journal: &MigrationJournal,
    selector: &RepositorySelector,
    manifest: &RepositoryGenerationManifest,
) -> (r: Result<(), PongError>)
    ensures
        r is Ok <==> journal_agrees(*journal, *selector, *manifest),
        r is Err ==> (r matches Err(PongError::RecoveryRequired(m)) && m@
            == "active selector and migration journal disagree"@),
{
    let metadata_agrees = match &journal.target_metadata_digest {
        Some(d) => str_equal(d.as_str(), manifest.metadata_digest.as_str()),
        None => false,
    };
    let disagree = !str_equal(journal.migration_id.as_str(), selector.migration_id.as_str())
        || !str_equal(journal.target_generation_id.as_str(), selector.active_generation.as_str())
        || !metadata_agrees || !str_equal(
        journal.source_root_digest.as_str(),
        manifest.source_marker_digest.as_str(),
    );
    if disagree {
        return Err(
            PongError::RecoveryRequired(text_of("active selector and migration journal disagree")),
        );
    }
    let spec = MigrationSpec::new(journal.migration_id.as_str(), journal.target_generation_id.as_str());
    let planned = plan_digest(
        &spec,
        journal.source_root_digest.as_str(),
        journal.source_metadata_digest.as_str(),
    )?;
    if !str_equal(journal.plan_digest.as_str(), planned.as_str()) {
        return Err(
            PongError::RecoveryRequired(text_of("active selector and migration journal disagree")),
        );
    }
    Ok(())
}

/// Mark a journal finalized under the selector's digest; whether the
/// journal changed and must be written back.
pub fn finalize_journal(journal: &mut MigrationJournal, selector_digest: &str) -> (changed: bool)
    ensures
        changed == !(old(journal).status@ == "finalized"@ && (old(journal).selector_digest matches Some(
            d,
        ) && d@ == selector_digest@)),
        changed ==> (final(journal).status@ == "finalized"@) && (final(journal).selector_digest matches Some(
            d,
        ) && d@ == selector_digest@) && (final(journal).finalized_at matches Some(f) && f@
            == "selector-recovery"@),
        !changed ==> *final(journal) == *old(journal),
        final(journal).migration_id == old(journal).migration_id,
        final(journal).plan_digest == old(journal).plan_digest,
        final(journal).target_generation_id == old(journal).target_generation_id,
{
    let done = str_equal(journal.status.as_str(), "finalized") && match &journal.selector_digest {
        Some(d) => str_equal(d.as_str(), selector_digest),
        None => false,
    };
    if !done {
        journal.status = text_of("finalized");
        journal.selector_digest = Some(text_of(selector_digest));
        journal.finalized_at = Some(text_of("selector-recovery"));
    }
    !done
}


/// A repository whose selector already names a generation may only be
/// asked to migrate to that same generation under the same migration.
pub fn check_selector_for_spec(selector: &RepositorySelector, spec: &MigrationSpec) -> (r: Result<
    (),
    PongError,
>)
    ensures
        r is Ok <==> selector.active_generation@ == spec.target_generation_id@
            && selector.migration_id@ == spec.migration_id@,
        r is Err ==> (r matches Err(PongError::Conflict(m)) && m@
            == "repository already has a different active generation"@),
{
    if !str_equal(selector.active_generation.as_str(), spec.target_generation_id.as_str())
        || !str_equal(selector.migration_id.as_str(), spec.migration_id.as_str()) {
        return Err(
            PongError::Conflict(text_of("repository already has a different active generation")),
        );
    }
    Ok(())
}

/// The outcome of a migration that already took effect: the finalized
/// journal must record the plan the request describes.
pub fn already_active_outcome(
    spec: &MigrationSpec,
    journal: &MigrationJournal,
    selector: &RepositorySelector,
    selector_digest: &str,
) -> (r: Result<MigrationOutcome, PongError>)
    ensures
        ({
            let planned = byte_digest_text(
                encode_utf8(
                    plan_text(
                        spec.migration_id@,
                        spec.target_generation_id@,
                        journal.source_root_digest@,
                        journal.source_metadata_digest@,
                    ),
                ),
            );
            &&& journal.plan_digest@ != planned ==> (r matches Err(PongError::Conflict(m)) && m@
                == "migration journal plan digest does not match the requested plan"@)
            &&& journal.plan_digest@ == planned ==> (r matches Ok(o) && o.migration_id
                == spec.migration_id && o.source_generation_id == journal.source_generation_id
                && o.target_generation_id == selector.active_generation && o.plan_digest
                == journal.plan_digest && o.selector_digest@ == selector_digest@
                && o.generation_manifest_digest == selector.generation_manifest_digest
                && o.already_active)
        }),
{
    let planned = plan_digest(
        spec,
        journal.source_root_digest.as_str(),
        journal.source_metadata_digest.as_str(),
    )?;
    if !str_equal(journal.plan_digest.as_str(), planned.as_str()) {
        return Err(
            PongError::Conflict(
                text_of("migration journal plan digest does not match the requested plan"),
            ),
        );
    }
    Ok(
        MigrationOutcome {
            migration_id: spec.migration_id.clone(),
            source_generation_id: journal.source_generation_id.clone(),
            target_generation_id: selector.active_generation.clone(),
            plan_digest: journal.plan_digest.clone(),
            selector_digest: text_of(selector_digest),
            generation_manifest_digest: selector.generation_manifest_digest.clone(),
            already_active: true,
        },
    )
}

/// The journal a migration may run under, given the one already bound to
/// its id (if any), the plan digest and the source digests it read.
pub open spec fn journal_bound(
    existing: Option<MigrationJournal>,
    spec: MigrationSpec,
    plan: Seq<char>,
    root: Seq<char>,
    metadata: Seq<char>,
    r: Result<(MigrationJournal, bool), PongError>,
) -> bool {
    match existing {
        Some(j) => if j.plan_digest@ != plan {
            r matches Err(PongError::Conflict(m)) && m@
                == "migration id is already bound to a different plan"@
        } else if j.source_root_digest@ != root || j.source_metadata_digest@ != metadata {
            r matches Err(PongError::Conflict(m)) && m@
                == "legacy source changed since the migration was prepared"@
        } else if j.status@ == "selector_committed"@ {
            r matches Err(PongError::RecoveryRequired(m)) && m@
                == "migration journal records a selector commit but the selector is legacy"@
        } else {
            r == Ok::<(MigrationJournal, bool), PongError>((j, false))
        },
        None => r matches Ok((j, write)) && write && j.journal_version == 1 && j.migration_id
            == spec.migration_id && j.source_generation_id@ == "legacy-v0.1"@
            && j.target_generation_id == spec.target_generation_id && j.plan_digest@ == plan
            && j.source_root_digest@ == root && j.source_metadata_digest@ == metadata
            && j.target_metadata_digest is None && j.selector_digest is None && j.status@
            == "preflight"@ && j.finalized_at is None,
    }
}

/// The journal a migration runs under: an existing journal must record
/// the same plan over an unchanged source and must not be past its selector
/// commit; without one, a new journal starts in `preflight` and must be
/// written (the second component).
pub fn migration_journal_for(
    existing: Option<MigrationJournal>,
    spec: &MigrationSpec,
    plan_digest: &str,
    source_root_digest: &str,
    source_metadata_digest: &str,
) -> (r: Result<(MigrationJournal, bool), PongError>)
    ensures
        journal_bound(existing, *spec, plan_digest@, source_root_digest@, source_metadata_digest@, r),
{
    match existing {
        Some(j) => {
            if !str_equal(j.plan_digest.as_str(), plan_digest) {
                return Err(
                    PongError::Conflict(text_of("migration id is already bound to a different plan")),
                );
            }
            if !str_equal(j.source_root_digest.as_str(), source_root_digest) || !str_equal(
                j.source_metadata_digest.as_str(),
                source_metadata_digest,
            ) {
                return Err(
                    PongError::Conflict(
                        text_of("legacy source changed since the migration was prepared"),
                    ),
                );
            }
            if str_equal(j.status.as_str(), "selector_committed") {
                return Err(
                    PongError::RecoveryRequired(
                        text_of(
                            "migration journal records a selector commit but the selector is legacy",
                        ),
                    ),
                );
            }
            Ok((j, false))
        },
        None => Ok(
            (
                MigrationJournal {
                    journal_version: 1,
                    migration_id: spec.migration_id.clone(),
                    source_generation_id: text_of("legacy-v0.1"),
                    target_generation_id: spec.target_generation_id.clone(),
                    plan_digest: text_of(plan_digest),
                    source_root_digest: text_of(source_root_digest),
                    source_metadata_digest: text_of(source_metadata_digest),
                    target_metadata_digest: None,
                    selector_digest: None,
                    status: text_of("preflight"),
                    finalized_at: None,
                },
                true,
            ),
        ),
    }
}

/// A target generation left by an earlier attempt may be replaced only by
/// the migration that allocated it.
pub fn check_existing_target(
    manifest: &RepositoryGenerationManifest,
    spec: &MigrationSpec,
) -> (r: Result<(), PongError>)
    ensures
        r is Ok <==> manifest.migration_id@ == spec.migration_id@,
        r is Err ==> (r matches Err(PongError::Conflict(m)) && m@
            == "target generation is already owned by another migration"@),
{
    if !str_equal(manifest.migration_id.as_str(), spec.migration_id.as_str()) {
        return Err(
            PongError::Conflict(text_of("target generation is already owned by another migration")),
        );
    }
    Ok(())
}

/// The name of the directory a target generation is built in before it is
/// published: `.<generation>.<migration>.tmp`.
pub fn temporary_generation_name(spec: &MigrationSpec) -> (r: String)
    ensures
        r@ == "."@ + spec.target_generation_id@ + "."@ + spec.migration_id@ + ".tmp"@,
{
    let a = concat(".", spec.target_generation_id.as_str());
    let b = concat(a.as_str(), ".");
    let c = concat(b.as_str(), spec.migration_id.as_str());
    concat(c.as_str(), ".tmp")
}

/// The manifest that attests a migrated generation: its identities, the
/// generation format, the source marker and metadata digests, and the
/// redaction profile the metadata was written under.
pub fn generation_manifest_for(
    spec: &MigrationSpec,
    source_root_digest: &str,
    metadata_digest: &str,
    metadata_size: u64,
    redaction_profile_id: &str,
    redaction_profile_version: &str,
) -> (r: RepositoryGenerationManifest)
    ensures
        r.manifest_version == 1,
        r.generation_id == spec.target_generation_id,
        r.migration_id == spec.migration_id,
        r.repository_format@ == GENERATION_REPOSITORY_FORMAT@,
        r.schema_version@ == GENERATION_SCHEMA_VERSION@,
        r.storage_driver@ == STORAGE_DRIVER@,
        r.source_marker_digest@ == source_root_digest@,
        r.metadata_digest@ == metadata_digest@,
        r.metadata_size == metadata_size,
        r.redaction_profile_id@ == redaction_profile_id@,
        r.redaction_profile_version@ == redaction_profile_version@,
{
    RepositoryGenerationManifest {
        manifest_version: 1,
        generation_id: spec.target_generation_id.clone(),
        migration_id: spec.migration_id.clone(),
        repository_format: text_of(GENERATION_REPOSITORY_FORMAT),
        schema_version: text_of(GENERATION_SCHEMA_VERSION),
        storage_driver: text_of(STORAGE_DRIVER),
        source_marker_digest: text_of(source_root_digest),
        metadata_digest: text_of(metadata_digest),
        metadata_size,
        redaction_profile_id: text_of(redaction_profile_id),
        redaction_profile_version: text_of(redaction_profile_version),
    }
}

/// The selector that makes a migrated generation active.
pub fn selector_for(spec: &MigrationSpec, generation_manifest_digest: &str) -> (r: RepositorySelector)
    ensures
        r.marker_version == REPOSITORY_SELECTOR_VERSION,
        r.repository_format@ == GENERATION_REPOSITORY_FORMAT@,
        r.schema_version@ == GENERATION_SCHEMA_VERSION@,
        r.storage_driver@ == STORAGE_DRIVER@,
        r.active_generation == spec.target_generation_id,
        r.migration_id == spec.migration_id,
        r.generation_manifest_digest@ == generation_manifest_digest@,
{
    RepositorySelector {
        marker_version: REPOSITORY_SELECTOR_VERSION,
        repository_format: text_of(GENERATION_REPOSITORY_FORMAT),
        schema_version: text_of(GENERATION_SCHEMA_VERSION),
        storage_driver: text_of(STORAGE_DRIVER),
        active_generation: spec.target_generation_id.clone(),
        migration_id: spec.migration_id.clone(),
        generation_manifest_digest: text_of(generation_manifest_digest),
    }
}


/// The metadata store opened for a repository must record the format its
/// marker declares.
pub fn check_metadata_format(marker_format: &str, metadata_format: &str) -> (r: Result<(), PongError>)
    ensures
        r is Ok <==> marker_format@ == metadata_format@,
        r is Err ==> (r matches Err(PongError::Integrity(m)) && m@ == "repository marker format "@
            + marker_format@ + " disagrees with metadata format "@ + metadata_format@),
{
    if !str_equal(marker_format, metadata_format) {
        let a = concat("repository marker format ", marker_format);
        let b = concat(a.as_str(), " disagrees with metadata format ");
        return Err(PongError::Integrity(concat(b.as_str(), metadata_format)));
    }
    Ok(())
}

/// The metadata of an active generation must carry the generation and
/// migration identity its manifest names, and the redaction profile the
/// manifest attests.
pub fn check_generation_metadata(
    manifest: &RepositoryGenerationManifest,
    identity: &Option<(String, String)>,
    profile_id: &str,
    profile_version: &str,
) -> (r: Result<(), PongError>)
    ensures
        match *identity {
            None => r matches Err(PongError::Integrity(m)) && m@
                == "active generation metadata has no durable generation identity"@,
            Some((g, mi)) => if g@ != manifest.generation_id@ || mi@ != manifest.migration_id@ {
                r matches Err(PongError::Integrity(m)) && m@
                    == "active generation metadata identity does not match its manifest"@
            } else if profile_id@ != manifest.redaction_profile_id@ || profile_version@
                != manifest.redaction_profile_version@ {
                r matches Err(PongError::Integrity(m)) && m@
                    == "active generation redaction profile does not match its manifest"@
            } else {
                r is Ok
            },
        },
{
    match identity {
        None => Err(
            PongError::Integrity(
                text_of("active generation metadata has no durable generation identity"),
            ),
        ),
        Some((g, mi)) => {
            if !str_equal(g.as_str(), manifest.generation_id.as_str()) || !str_equal(
                mi.as_str(),
                manifest.migration_id.as_str(),
            ) {
                return Err(
                    PongError::Integrity(
                        text_of("active generation metadata identity does not match its manifest"),
                    ),
                );
            }
            if !str_equal(profile_id, manifest.redaction_profile_id.as_str()) || !str_equal(
                profile_version,
                manifest.redaction_profile_version.as_str(),
            ) {
                return Err(
                    PongError::Integrity(
                        text_of("active generation redaction profile does not match its manifest"),
                    ),
                );
            }
            Ok(())
        },
    }
}


/// The `k` low-order bytes of `x`, least significant first.
pub open spec fn le_bytes(x: nat, k: nat) -> Seq<u8>
    decreases k,
{
    if k == 0 {
        Seq::empty()
    } else {
        seq![(x % 256) as u8] + le_bytes(x / 256, (k - 1) as nat)
    }
}

/// One present database file in a source digest: the length of its name
/// suffix and the suffix, then the length of its contents and the
/// contents, each length as 8 little-endian bytes.
pub open spec fn database_part_frame(suffix: Seq<char>, contents: Seq<u8>) -> Seq<u8> {
    le_bytes(encode_utf8(suffix).len(), 8) + encode_utf8(suffix) + le_bytes(contents.len(), 8)
        + contents
}

/// The framed bytes of the present database files, in order.
pub open spec fn database_frame(parts: Seq<(String, Vec<u8>)>) -> Seq<u8>
    decreases parts.len(),
{
    if parts.len() == 0 {
        Seq::empty()
    } else {
        database_frame(parts.drop_last()) + database_part_frame(parts.last().0@, parts.last().1@)
    }
}

fn push_u64_le(out: &mut Vec<u8>, n: u64)
    ensures
        final(out)@ == old(out)@ + le_bytes(n as nat, 8),
{
    let mut x: u64 = n;
    let mut i: usize = 0;
    while i < 8
        invariant
            i <= 8,
            out@ + le_bytes(x as nat, (8 - i) as nat) == old(out)@ + le_bytes(n as nat, 8),
        decreases 8 - i,
    {
        let ghost before = out@;
        let ghost xv = x as nat;
        out.push((x % 256) as u8);
        assert(le_bytes(xv, (8 - i) as nat) == seq![(xv % 256) as u8] + le_bytes(
            xv / 256,
            (8 - i - 1) as nat,
        ));
        x = x / 256;
        i = i + 1;
        assert(out@ + le_bytes(x as nat, (8 - i) as nat) =~= before + le_bytes(xv, (8 - i + 1) as nat));
    }
    assert(le_bytes(x as nat, 0) =~= Seq::<u8>::empty());
    assert(out@ =~= old(out)@ + le_bytes(n as nat, 8));
}

fn push_all(out: &mut Vec<u8>, bytes: &[u8])
    ensures
        final(out)@ == old(out)@ + bytes@,
{
    let mut i: usize = 0;
    while i < bytes.len()
        invariant
            i <= bytes@.len(),
            out@ == old(out)@ + bytes@.take(i as int),
        decreases bytes@.len() - i,
    {
        out.push(bytes[i]);
        i = i + 1;
        assert(out@ =~= old(out)@ + bytes@.take(i as int));
    }
    assert(bytes@.take(bytes@.len() as int) =~= bytes@);
}

/// The digest that attests a legacy metadata database: the present files
/// among the database and its `-wal` and `-journal` sidecars, each framed
/// by its name suffix and contents, digested as repository bytes.
pub fn source_database_digest(parts: &Vec<(String, Vec<u8>)>) -> (r: String)
    ensures
        r@ == byte_digest_text(database_frame(parts@)),
{
    let mut bytes: Vec<u8> = Vec::new();
    let mut i: usize = 0;
    while i < parts.len()
        invariant
            i <= parts@.len(),
            bytes@ == database_frame(parts@.take(i as int)),
        decreases parts@.len() - i,
    {
        let suffix = parts[i].0.as_str().as_bytes();
        let contents = parts[i].1.as_slice();
        let ghost start = bytes@;
        push_u64_le(&mut bytes, suffix.len() as u64);
        push_all(&mut bytes, suffix);
        push_u64_le(&mut bytes, contents.len() as u64);
        push_all(&mut bytes, contents);
        proof {
            let t = parts@.take(i + 1);
            assert(t.drop_last() =~= parts@.take(i as int));
            assert(t.last() == parts@[i as int]);
        }
        i = i + 1;
    }
    assert(parts@.take(parts@.len() as int) =~= parts@);
    byte_digest(bytes.as_slice())
}


/// What a failure to take the repository lock reports: a lock another
/// holder keeps is a conflict, since migration needs an offline
/// repository; any other failure is a host I/O failure.
pub fn lock_error(failure: IoFailure, platform: HostPlatform) -> (e: PongError)
    ensures
        failure.kind == IoErrorKind::WouldBlock ==> (e matches PongError::Conflict(m) && m@
            == "repository lock is busy; migration requires an offline repository"@),
        failure.kind != IoErrorKind::WouldBlock ==> io_error_spec(failure, platform, e),
{
    match failure.kind {
        IoErrorKind::WouldBlock => PongError::Conflict(
            text_of("repository lock is busy; migration requires an offline repository"),
        ),
        _ => PongError::from_io(failure, platform),
    }
}


/// What opening a repository directory does with what the host found there.
#[derive(Debug)]
pub enum DirectoryStep {
    /// A real directory: use it.
    Ready,
    /// Nothing there: create it (and sync its parent).
    Create,
    Refuse(PongError),
}

/// Decides how a repository directory is made ready: a real directory is
/// used, a missing one is created, and a link or any other entry refuses
/// the repository.
pub fn directory_step(path: &str, found: Option<EntryKind>) -> (r: DirectoryStep)
    ensures
        match found {
            None => r is Create,
            Some(EntryKind::Directory) => r is Ready,
            Some(EntryKind::Link) => r matches DirectoryStep::Refuse(e) && e matches PongError::Integrity(
                m,
            ) && m@ == "repository directory is a symlink or reparse point"@,
            Some(_) => r matches DirectoryStep::Refuse(e) && e matches PongError::Integrity(m) && m@
                == "repository path is not a directory: "@ + path@,
        },
{
    match found {
        None => DirectoryStep::Create,
        Some(EntryKind::Directory) => DirectoryStep::Ready,
        Some(EntryKind::Link) => DirectoryStep::Refuse(
            PongError::Integrity(text_of("repository directory is a symlink or reparse point")),
        ),
        Some(_) => {
            let mut message = chars_of("repository path is not a directory: ");
            let p = chars_of(path);
            append_chars(&mut message, p.as_slice());
            DirectoryStep::Refuse(PongError::Integrity(string_from_chars(message.as_slice())))
        },
    }
}

/// Checks one of the store's directories when a repository is opened:
/// opening never creates them, so a missing one is an integrity failure.
pub fn check_existing_directory(path: &str, found: Option<EntryKind>) -> (r: Result<(), PongError>)
    ensures
        match found {
            None => r matches Err(e) && e matches PongError::Integrity(m) && m@
                == "repository CAS directory is missing: "@ + path@,
            Some(EntryKind::Directory) => r is Ok,
            Some(EntryKind::Link) => r matches Err(e) && e matches PongError::Integrity(m) && m@
                == "repository directory is a symlink or reparse point"@,
            Some(_) => r matches Err(e) && e matches PongError::Integrity(m) && m@
                == "repository path is not a directory: "@ + path@,
        },
{
    match found {
        None => {
            let mut message = chars_of("repository CAS directory is missing: ");
            let p = chars_of(path);
            append_chars(&mut message, p.as_slice());
            Err(PongError::Integrity(string_from_chars(message.as_slice())))
        },
        Some(kind) => match directory_step(path, Some(kind)) {
            DirectoryStep::Refuse(e) => Err(e),
            _ => Ok(()),
        },
    }
}

/// Checks the project root named for opening: it must exist and be a
/// directory itself, not a link to one.
pub fn check_project_root(root: &str, found: Option<EntryKind>) -> (r: Result<(), PongError>)
    ensures
        match found {
            None => r matches Err(e) && e matches PongError::NotFound(m) && m@
                == "project root does not exist: "@ + root@,
            Some(EntryKind::Directory) => r is Ok,
            Some(_) => r matches Err(e) && e matches PongError::InvalidInput(m) && m@
                == "project root is not a directory: "@ + root@,
        },
{
    match found {
        None => {
            let mut message = chars_of("project root does not exist: ");
            let p = chars_of(root);
            append_chars(&mut message, p.as_slice());
            Err(PongError::NotFound(string_from_chars(message.as_slice())))
        },
        Some(EntryKind::Directory) => Ok(()),
        Some(_) => {
            let mut message = chars_of("project root is not a directory: ");
            let p = chars_of(root);
            append_chars(&mut message, p.as_slice());
            Err(PongError::InvalidInput(string_from_chars(message.as_slice())))
        },
    }
}

/// Checks the root of the repository-owned storage before its bytes are
/// scanned: it must be a real directory.
pub fn check_owned_root(kind: EntryKind) -> (r: Result<(), PongError>)
    ensures
        kind == EntryKind::Directory ==> r is Ok,
        kind != EntryKind::Directory ==> (r matches Err(e) && e matches PongError::Integrity(m)
            && m@ == "repository-owned storage root is not a directory"@),
{
    match kind {
        EntryKind::Directory => Ok(()),
        _ => Err(PongError::Integrity(text_of("repository-owned storage root is not a directory"))),
    }
}

/// Decides one step of the scan of repository-owned storage: the lock file
/// under `locks` is skipped (the host may hold it unreadable), a link or a
/// special entry refuses the storage, a directory is entered and a regular
/// file has its bytes checked at `repository-owned bytes`.
pub fn owned_entry_step(parent_name: &str, child_name: &str, kind: EntryKind) -> (r: ScanStep)
    ensures
        (child_name@ == "repository.lock"@ && parent_name@ == "locks"@) ==> r is Skip,
        !(child_name@ == "repository.lock"@ && parent_name@ == "locks"@) ==> match kind {
            EntryKind::Link => r matches ScanStep::Refuse(e) && e matches PongError::Integrity(m)
                && m@ == "repository-owned storage contains a symlink or reparse point"@,
            EntryKind::Directory => r is Descend,
            EntryKind::File => r is CheckBytes,
            EntryKind::Other => r matches ScanStep::Refuse(e) && e matches PongError::Integrity(m)
                && m@ == "repository-owned storage contains a non-regular entry"@,
        },
{
    if str_equal(child_name, "repository.lock") && str_equal(parent_name, "locks") {
        return ScanStep::Skip;
    }
    match kind {
        EntryKind::Link => ScanStep::Refuse(
            PongError::Integrity(
                text_of("repository-owned storage contains a symlink or reparse point"),
            ),
        ),
        EntryKind::Directory => ScanStep::Descend,
        EntryKind::File => ScanStep::CheckBytes,
        EntryKind::Other => ScanStep::Refuse(
            PongError::Integrity(text_of("repository-owned storage contains a non-regular entry")),
        ),
    }
}

/// Decides a marker publication that lost the race to another writer: the
/// marker already there must hold the same values.
pub fn check_concurrent_marker(existing: &RepositoryMarker, marker: &RepositoryMarker) -> (r: Result<
    (),
    PongError,
>)
    ensures
        r is Ok <==> (existing.marker_version == marker.marker_version
            && existing.repository_format@ == marker.repository_format@
            && existing.schema_version@ == marker.schema_version@
            && existing.storage_driver@ == marker.storage_driver@),
        r matches Err(e) ==> e matches PongError::Conflict(m) && m@
            == "repository marker was concurrently initialized with incompatible values"@,
{
    if same_marker(existing, marker) {
        Ok(())
    } else {
        Err(
            PongError::Conflict(
                text_of("repository marker was concurrently initialized with incompatible values"),
            ),
        )
    }
}


/// Checks that the repository's root document (the generation selector or
/// a legacy marker) is a regular file before it is read; an empty project
/// is "not initialized", not a storage failure.
pub fn check_root_document_present(found: Option<EntryKind>) -> (r: Result<(), PongError>)
    ensures
        found == Some(EntryKind::File) ==> r is Ok,
        found != Some(EntryKind::File) ==> (r matches Err(e) && e matches PongError::NotFound(m)
            && m@ == "repository selector does not exist"@),
{
    match found {
        Some(EntryKind::File) => Ok(()),
        _ => Err(PongError::NotFound(text_of("repository selector does not exist"))),
    }
}

/// Checks that the metadata database of the opened layout is a regular file
/// before it is opened.
pub fn check_metadata_file(path: &str, found: Option<EntryKind>) -> (r: Result<(), PongError>)
    ensures
        found == Some(EntryKind::File) ==> r is Ok,
        found != Some(EntryKind::File) ==> (r matches Err(e) && e matches PongError::Integrity(m)
            && m@ == "repository metadata file is missing or not a regular file: "@ + path@),
{
    match found {
        Some(EntryKind::File) => Ok(()),
        _ => {
            let mut message = chars_of("repository metadata file is missing or not a regular file: ");
            let p = chars_of(path);
            append_chars(&mut message, p.as_slice());
            Err(PongError::Integrity(string_from_chars(message.as_slice())))
        },
    }
}


/// The digest a migration plan is bound to.
pub open spec fn planned_digest(
    spec: MigrationSpec,
    source_root_digest: Seq<char>,
    source_metadata_digest: Seq<char>,
) -> Seq<char> {
    byte_digest_text(
        encode_utf8(
            plan_text(
                spec.migration_id@,
                spec.target_generation_id@,
                source_root_digest,
                source_metadata_digest,
            ),
        ),
    )
}

/// What a migration request answers on a repository whose selector is
/// already active: another generation or migration is a conflict; the
/// same migration is answered from its finalized journal, which must record
/// the requested plan.
pub open spec fn active_outcome(
    spec: MigrationSpec,
    selector: RepositorySelector,
    journal: MigrationJournal,
    selector_digest: Seq<char>,
    r: Result<MigrationOutcome, PongError>,
) -> bool {
    if !(selector.active_generation@ == spec.target_generation_id@ && selector.migration_id@
        == spec.migration_id@) {
        r matches Err(PongError::Conflict(m)) && m@
            == "repository already has a different active generation"@
    } else if journal.plan_digest@ != planned_digest(
        spec,
        journal.source_root_digest@,
        journal.source_metadata_digest@,
    ) {
        r matches Err(PongError::Conflict(m)) && m@
            == "migration journal plan digest does not match the requested plan"@
    } else {
        r matches Ok(o) && o.migration_id == spec.migration_id && o.source_generation_id
            == journal.source_generation_id && o.target_generation_id == selector.active_generation
            && o.plan_digest == journal.plan_digest && o.selector_digest@ == selector_digest
            && o.generation_manifest_digest == selector.generation_manifest_digest
            && o.already_active
    }
}

/// Answer a migration request on a repository whose selector is already
/// active, from that selector, its finalized journal and the digest of the
/// selector's bytes; nothing is written.
pub fn active_migration_outcome(
    spec: &MigrationSpec,
    selector: &RepositorySelector,
    journal: &MigrationJournal,
    selector_digest: &str,
) -> (r: Result<MigrationOutcome, PongError>)
    ensures
        active_outcome(*spec, *selector, *journal, selector_digest@, r),
{
    check_selector_for_spec(selector, spec)?;
    already_active_outcome(spec, journal, selector, selector_digest)
}

/// Re-running a migration that took effect changes nothing and answers as
/// it did: with the selector and finalized journal the migration `first`
/// left (a selector for its target generation and migration, a journal
/// bound to its plan over the source it read), the same request is
/// answered `already_active` with the same plan, selector and manifest
/// digests, and any other request is a conflict.
pub proof fn lemma_migration_rerun_is_idempotent(
    first: MigrationSpec,
    again: MigrationSpec,
    selector: RepositorySelector,
    journal: MigrationJournal,
    selector_digest: Seq<char>,
    r: Result<MigrationOutcome, PongError>,
)
    requires
        selector.active_generation@ == first.target_generation_id@,
        selector.migration_id@ == first.migration_id@,
        journal.plan_digest@ == planned_digest(
            first,
            journal.source_root_digest@,
            journal.source_metadata_digest@,
        ),
        active_outcome(again, selector, journal, selector_digest, r),
    ensures
        (again.migration_id@ == first.migration_id@ && again.target_generation_id@
            == first.target_generation_id@) ==> (r matches Ok(o) && o.already_active
            && o.target_generation_id@ == first.target_generation_id@ && o.plan_digest
            == journal.plan_digest && o.selector_digest@ == selector_digest
            && o.generation_manifest_digest == selector.generation_manifest_digest),
        !(again.migration_id@ == first.migration_id@ && again.target_generation_id@
            == first.target_generation_id@) ==> (r matches Err(PongError::Conflict(_))),
{
    if again.migration_id@ == first.migration_id@ && again.target_generation_id@
        == first.target_generation_id@ {
        assert(planned_digest(again, journal.source_root_digest@, journal.source_metadata_digest@)
            == planned_digest(first, journal.source_root_digest@, journal.source_metadata_digest@));
    }
}


/// Where opening a repository stands.
#[derive(Clone, Copy, Debug, PartialEq, Eq, Structural)]
pub enum OpenPhase {
    Start,
    Scanning,
    CheckingLayout,
    OpeningMetadata,
    CheckingGeneration,
    OpeningStore,
    Rescanning,
    Recovering,
    Open,
}

/// The host work that opening a repository asks for next.
#[derive(Clone, Copy, Debug, PartialEq, Eq, Structural)]
pub enum OpenAction {
    /// Scan every repository-owned byte (`check_owned_root`, `owned_entry_step`).
    ScanOwnedBytes,
    /// Check the store's directories (`check_existing_directory`) and find the metadata file.
    CheckLayout,
    /// Open the metadata database and read its repository format.
    OpenMetadata,
    /// Verify the active generation's database, identity, profile and projections.
    CheckGeneration,
    /// Open the content-addressed store.
    OpenStore,
    /// Scan the owned bytes again, sidecars included.
    Rescan,
    /// Recover unfinished Operations.
    Recover,
    /// The repository is open.
    Finish,
}

/// What opening a repository has established so far: the phase, the
/// marker's repository format, and the active generation's manifest when
/// the root document is a selector.
#[derive(Debug)]
pub struct OpenState {
    pub phase: OpenPhase,
    pub marker_format: String,
    pub generation: Option<RepositoryGenerationManifest>,
}

/// What the host observed for the work last asked of it.
#[derive(Debug)]
pub enum OpenEvent {
    /// The root document was read and checked: the marker's format and,
    /// for a selector, its validated generation manifest.
    RootRead { marker_format: String, generation: Option<RepositoryGenerationManifest> },
    OwnedBytesScanned,
    /// The store's directories were checked; the metadata path and what is
    /// found there.
    LayoutChecked { metadata_path: String, metadata_file: Option<EntryKind> },
    /// The metadata's repository format, or why it could not be opened.
    MetadataOpened(Result<String, PongError>),
    /// The generation's integrity check, its durable identity and redaction
    /// profile, and its projection binding check.
    GenerationRead {
        integrity: Result<(), PongError>,
        identity: Option<(String, String)>,
        profile_id: String,
        profile_version: String,
        bindings: Result<(), PongError>,
    },
    StoreOpened,
    Rescanned,
    /// The outcome of recovering unfinished Operations.
    Recovered(Result<(), PongError>),
}

/// A storage failure of an active generation is reported as an integrity
/// failure; a legacy repository reports it as it is.
pub open spec fn open_failure(generation: bool, e: PongError, r: PongError) -> bool {
    if generation && e is Sqlite {
        r matches PongError::Integrity(m) && m@
            == "active generation SQLite database failed to open or verify"@
    } else {
        r == e
    }
}

/// The next phase and action when `state` receives `event` and its checks
/// pass, or none when the event is out of order.
pub open spec fn open_transition(phase: OpenPhase, generation: bool, event: OpenEvent) -> Option<
    (OpenPhase, OpenAction),
> {
    match (phase, event) {
        (OpenPhase::Start, OpenEvent::RootRead { .. }) => Some(
            (OpenPhase::Scanning, OpenAction::ScanOwnedBytes),
        ),
        (OpenPhase::Scanning, OpenEvent::OwnedBytesScanned) => Some(
            (OpenPhase::CheckingLayout, OpenAction::CheckLayout),
        ),
        (OpenPhase::CheckingLayout, OpenEvent::LayoutChecked { .. }) => Some(
            (OpenPhase::OpeningMetadata, OpenAction::OpenMetadata),
        ),
        (OpenPhase::OpeningMetadata, OpenEvent::MetadataOpened(_)) => if generation {
            Some((OpenPhase::CheckingGeneration, OpenAction::CheckGeneration))
        } else {
            Some((OpenPhase::OpeningStore, OpenAction::OpenStore))
        },
        (OpenPhase::CheckingGeneration, OpenEvent::GenerationRead { .. }) => if generation {
            Some((OpenPhase::OpeningStore, OpenAction::OpenStore))
        } else {
            None
        },
        (OpenPhase::OpeningStore, OpenEvent::StoreOpened) => Some(
            (OpenPhase::Rescanning, OpenAction::Rescan),
        ),
        (OpenPhase::Rescanning, OpenEvent::Rescanned) => Some(
            (OpenPhase::Recovering, OpenAction::Recover),
        ),
        (OpenPhase::Recovering, OpenEvent::Recovered(_)) => Some(
            (OpenPhase::Open, OpenAction::Finish),
        ),
        _ => None,
    }
}

/// One step of opening a repository: the checks of `open_layout` in its
/// order, with a storage failure of an active generation reported as an
/// integrity failure. The marker is checked before anything else so that
/// an empty project reads as "not initialized"; every owned byte is
/// scanned before the stores open and again after.
pub fn open_step(state: OpenState, event: OpenEvent) -> (r: Result<(OpenState, OpenAction), PongError>)
    ensures
        open_transition(state.phase, state.generation is Some, event) is None ==> (r matches Err(
            PongError::Integrity(m),
        ) && m@ == "repository open received an event out of order"@),
        r matches Ok((next, action)) ==> open_transition(
            state.phase,
            state.generation is Some,
            event,
        ) == Some((next.phase, action)),
        r matches Ok((next, _)) ==> match event {
            OpenEvent::RootRead { marker_format, generation } => next.marker_format
                == marker_format && next.generation == generation,
            _ => next.marker_format == state.marker_format && next.generation == state.generation,
        },
        open_transition(state.phase, state.generation is Some, event) is Some ==> match event {
            OpenEvent::RootRead { .. } => r is Ok,
            OpenEvent::OwnedBytesScanned => r is Ok,
            OpenEvent::LayoutChecked { metadata_path, metadata_file } => if metadata_file == Some(
                EntryKind::File,
            ) {
                r is Ok
            } else {
                r matches Err(PongError::Integrity(m)) && m@
                    == "repository metadata file is missing or not a regular file: "@
                    + metadata_path@
            },
            OpenEvent::MetadataOpened(opened) => match opened {
                Err(e) => r matches Err(x) && open_failure(state.generation is Some, e, x),
                Ok(format) => if format@ == state.marker_format@ {
                    r is Ok
                } else {
                    r matches Err(PongError::Integrity(m)) && m@ == "repository marker format "@
                        + state.marker_format@ + " disagrees with metadata format "@ + format@
                },
            },
            OpenEvent::GenerationRead { integrity, identity, profile_id, profile_version, bindings } => {
                let manifest = state.generation->0;
                match integrity {
                    Err(e) => r matches Err(x) && open_failure(true, e, x),
                    Ok(_) => match identity {
                        None => r matches Err(PongError::Integrity(m)) && m@
                            == "active generation metadata has no durable generation identity"@,
                        Some((g, mi)) => if g@ != manifest.generation_id@ || mi@
                            != manifest.migration_id@ {
                            r matches Err(PongError::Integrity(m)) && m@
                                == "active generation metadata identity does not match its manifest"@
                        } else if profile_id@ != manifest.redaction_profile_id@ || profile_version@
                            != manifest.redaction_profile_version@ {
                            r matches Err(PongError::Integrity(m)) && m@
                                == "active generation redaction profile does not match its manifest"@
                        } else {
                            match bindings {
                                Err(e) => r matches Err(x) && open_failure(true, e, x),
                                Ok(_) => r is Ok,
                            }
                        },
                    },
                }
            },
            OpenEvent::StoreOpened => r is Ok,
            OpenEvent::Rescanned => r is Ok,
            OpenEvent::Recovered(recovered) => match recovered {
                Err(e) => r matches Err(x) && open_failure(state.generation is Some, e, x),
                Ok(_) => r is Ok,
            },
        },
{
    let OpenState { phase, marker_format, generation } = state;
    let out_of_order = PongError::Integrity(text_of("repository open received an event out of order"));
    match event {
        OpenEvent::RootRead { marker_format: format, generation: manifest } => match phase {
            OpenPhase::Start => Ok(
                (
                    OpenState { phase: OpenPhase::Scanning, marker_format: format, generation: manifest },
                    OpenAction::ScanOwnedBytes,
                ),
            ),
            _ => Err(out_of_order),
        },
        OpenEvent::OwnedBytesScanned => match phase {
            OpenPhase::Scanning => Ok(
                (
                    OpenState { phase: OpenPhase::CheckingLayout, marker_format, generation },
                    OpenAction::CheckLayout,
                ),
            ),
            _ => Err(out_of_order),
        },
        OpenEvent::LayoutChecked { metadata_path, metadata_file } => match phase {
            OpenPhase::CheckingLayout => {
                check_metadata_file(metadata_path.as_str(), metadata_file)?;
                Ok(
                    (
                        OpenState { phase: OpenPhase::OpeningMetadata, marker_format, generation },
                        OpenAction::OpenMetadata,
                    ),
                )
            },
            _ => Err(out_of_order),
        },
        OpenEvent::MetadataOpened(opened) => match phase {
            OpenPhase::OpeningMetadata => {
                let format = match opened {
                    Ok(format) => format,
                    Err(e) => {
                        return Err(
                            if generation.is_some() {
                                classify_generation_error(e)
                            } else {
                                e
                            },
                        );
                    },
                };
                check_metadata_format(marker_format.as_str(), format.as_str())?;
                if generation.is_some() {
                    Ok(
                        (
                            OpenState { phase: OpenPhase::CheckingGeneration, marker_format, generation },
                            OpenAction::CheckGeneration,
                        ),
                    )
                } else {
                    Ok(
                        (
                            OpenState { phase: OpenPhase::OpeningStore, marker_format, generation },
                            OpenAction::OpenStore,
                        ),
                    )
                }
            },
            _ => Err(out_of_order),
        },
        OpenEvent::GenerationRead { integrity, identity, profile_id, profile_version, bindings } => {
            match phase {
                OpenPhase::CheckingGeneration => {
                    let manifest = match &generation {
                        Some(m) => m,
                        None => {
                            return Err(out_of_order);
                        },
                    };
                    if let Err(e) = integrity {
                        return Err(classify_generation_error(e));
                    }
                    check_generation_metadata(
                        manifest,
                        &identity,
                        profile_id.as_str(),
                        profile_version.as_str(),
                    )?;
                    if let Err(e) = bindings {
                        return Err(classify_generation_error(e));
                    }
                    Ok(
                        (
                            OpenState { phase: OpenPhase::OpeningStore, marker_format, generation },
                            OpenAction::OpenStore,
                        ),
                    )
                },
                _ => Err(out_of_order),
            }
        },
        OpenEvent::StoreOpened => match phase {
            OpenPhase::OpeningStore => Ok(
                (
                    OpenState { phase: OpenPhase::Rescanning, marker_format, generation },
                    OpenAction::Rescan,
                ),
            ),
            _ => Err(out_of_order),
        },
        OpenEvent::Rescanned => match phase {
            OpenPhase::Rescanning => Ok(
                (
                    OpenState { phase: OpenPhase::Recovering, marker_format, generation },
                    OpenAction::Recover,
                ),
            ),
            _ => Err(out_of_order),
        },
        OpenEvent::Recovered(recovered) => match phase {
            OpenPhase::Recovering => {
                if let Err(e) = recovered {
                    return Err(
                        if generation.is_some() {
                            classify_generation_error(e)
                        } else {
                            e
                        },
                    );
                }
                Ok(
                    (
                        OpenState { phase: OpenPhase::Open, marker_format, generation },
                        OpenAction::Finish,
                    ),
                )
            },
            _ => Err(out_of_order),
        },
    }
}


/// Where a migration stands.
#[derive(Clone, Copy, Debug, PartialEq, Eq, Structural)]
pub enum MigrationPhase {
    Start,
    Preflight,
    Prepared,
    TargetReady,
    Allocated,
    BackedUp,
    Rewritten,
    Verified,
    SelectorEncoded,
    SelectorReplaced,
    SelectorSynced,
    JournalCommitted,
    Finalizing,
    Done,
}

/// What an existing target generation directory turned out to be.
#[derive(Debug)]
pub enum ExistingTarget {
    /// The path exists but is not a real directory.
    NotDirectory,
    /// No manifest could be read.
    NoManifest,
    /// The manifest is a link or not a regular file.
    UnsafeManifest,
    /// The manifest is not valid JSON of a manifest.
    InvalidManifest,
    Manifest(RepositoryGenerationManifest),
}

/// What the host observed for the work last asked of it.
#[derive(Debug)]
pub enum MigrationEvent {
    /// The root document is an active selector: the selector, its finalized
    /// journal and the digest of its bytes.
    ActiveRoot { selector: RepositorySelector, journal: MigrationJournal, selector_digest: String },
    /// The root document is a legacy marker.
    LegacyRoot,
    /// The legacy source: the digest of its marker bytes, what stands at the
    /// metadata path, the format the metadata records, the database files
    /// by suffix, and the journal already bound to the migration id.
    SourceRead {
        source_root_digest: String,
        metadata_file: Option<EntryKind>,
        source_format: String,
        source_parts: Vec<(String, Vec<u8>)>,
        journal: Option<MigrationJournal>,
    },
    /// What stands at the final target generation path.
    TargetProbed(Option<ExistingTarget>),
    TargetAllocated,
    BackedUp,
    Rewritten,
    /// The verified target metadata: its digest and size and the redaction
    /// profile it was written under.
    TargetVerified {
        metadata_digest: String,
        metadata_size: u64,
        profile_id: String,
        profile_version: String,
    },
    /// The generation was published; the digest of its manifest bytes.
    GenerationPublished { manifest_digest: String },
    /// The digest of the selector's canonical bytes.
    SelectorEncoded { selector_digest: String },
    SelectorReplaced,
    SelectorSynced,
    JournalCommitted,
    JournalFinalized,
}

/// The host work a migration asks for next.
#[derive(Debug)]
pub enum MigrationAction {
    /// Read the legacy source.
    ReadSource,
    /// Write the state's journal when `write_journal`, then probe the target
    /// generation path after removing the temporary directory `temporary`.
    PrepareTarget { write_journal: bool, temporary: String },
    /// Remove the existing target when `remove_existing`, then allocate the
    /// temporary generation directory.
    AllocateTarget { remove_existing: bool },
    /// Back the source database up into the temporary generation.
    Backup,
    /// Rewrite the target's identity and checkpoint it.
    RewriteTarget,
    /// Verify the target database.
    VerifyTarget,
    /// Write this manifest, scan the owned bytes, publish the generation
    /// and write the state's journal.
    PublishGeneration(RepositoryGenerationManifest),
    /// Encode this selector canonically.
    EncodeSelector(RepositorySelector),
    /// Replace the root document with the encoded selector.
    ReplaceSelector,
    /// Sync the `.pong` directory.
    SyncSelector,
    /// Write the state's journal (selector committed).
    CommitJournal,
    /// Write the state's journal (finalized).
    FinalizeJournal,
    /// The migration's answer.
    Finish(MigrationOutcome),
}

/// What a migration has established so far.
#[derive(Debug)]
pub struct MigrationState {
    pub phase: MigrationPhase,
    pub failpoints: MigrationFailpoints,
    pub journal: Option<MigrationJournal>,
    pub source_root_digest: String,
    pub plan_digest: String,
    pub manifest_digest: String,
    pub selector_digest: String,
}

/// The phase an event moves a migration to, and the fault point consulted
/// first, or none when the event is out of order.
pub open spec fn migration_transition(phase: MigrationPhase, event: MigrationEvent) -> Option<
    (MigrationPhase, Option<MigrationFailpoint>),
> {
    match (phase, event) {
        (MigrationPhase::Start, MigrationEvent::ActiveRoot { .. }) => Some((MigrationPhase::Done, None)),
        (MigrationPhase::Start, MigrationEvent::LegacyRoot) => Some(
            (MigrationPhase::Preflight, Some(MigrationFailpoint::Preflight)),
        ),
        (MigrationPhase::Preflight, MigrationEvent::SourceRead { .. }) => Some(
            (MigrationPhase::Prepared, None),
        ),
        (MigrationPhase::Prepared, MigrationEvent::TargetProbed(_)) => Some(
            (MigrationPhase::TargetReady, None),
        ),
        (MigrationPhase::TargetReady, MigrationEvent::TargetAllocated) => Some(
            (MigrationPhase::Allocated, Some(MigrationFailpoint::TargetAllocated)),
        ),
        (MigrationPhase::Allocated, MigrationEvent::BackedUp) => Some(
            (MigrationPhase::BackedUp, Some(MigrationFailpoint::AfterBackup)),
        ),
        (MigrationPhase::BackedUp, MigrationEvent::Rewritten) => Some(
            (MigrationPhase::Rewritten, Some(MigrationFailpoint::AfterCheckpoint)),
        ),
        (MigrationPhase::Rewritten, MigrationEvent::TargetVerified { .. }) => Some(
            (MigrationPhase::Verified, None),
        ),
        (MigrationPhase::Verified, MigrationEvent::GenerationPublished { .. }) => Some(
            (MigrationPhase::SelectorEncoded, Some(MigrationFailpoint::AfterVerify)),
        ),
        (MigrationPhase::SelectorEncoded, MigrationEvent::SelectorEncoded { .. }) => Some(
            (MigrationPhase::SelectorReplaced, Some(MigrationFailpoint::BeforeSelectorReplace)),
        ),
        (MigrationPhase::SelectorReplaced, MigrationEvent::SelectorReplaced) => Some(
            (MigrationPhase::SelectorSynced, Some(MigrationFailpoint::AfterSelectorReplace)),
        ),
        (MigrationPhase::SelectorSynced, MigrationEvent::SelectorSynced) => Some(
            (MigrationPhase::JournalCommitted, Some(MigrationFailpoint::AfterSelectorDirectorySync)),
        ),
        (MigrationPhase::JournalCommitted, MigrationEvent::JournalCommitted) => Some(
            (MigrationPhase::Finalizing, None),
        ),
        (MigrationPhase::Finalizing, MigrationEvent::JournalFinalized) => Some(
            (MigrationPhase::Done, Some(MigrationFailpoint::AfterJournalFinalize)),
        ),
        _ => None,
    }
}

/// The answer to an event that arrives out of order.
pub open spec fn out_of_order_answer(r: Result<(MigrationState, MigrationAction), PongError>) -> bool {
    match r {
        Err(PongError::Integrity(m)) => m@ == "repository migration received an event out of order"@,
        _ => false,
    }
}

/// The answer of the fault plan armed at `point`.
pub open spec fn fault_answer(
    r: Result<(MigrationState, MigrationAction), PongError>,
    point: MigrationFailpoint,
) -> bool {
    match r {
        Err(PongError::FaultInjected(m)) => m@ == "migration_"@ + migration_point_label(point),
        _ => false,
    }
}

/// The fault plan left after a boundary is passed: consumed there when it
/// was armed there, else unchanged.
pub open spec fn plan_after(
    armed: Option<MigrationFailpoint>,
    point: Option<MigrationFailpoint>,
) -> Option<MigrationFailpoint> {
    match point {
        Some(p) => if armed == Some(p) {
            None
        } else {
            armed
        },
        None => armed,
    }
}

/// The order every step keeps: an event out of order is refused; an event
/// in order moves to the next phase, and the fault armed at its boundary
/// answers first and is consumed.
pub open spec fn migration_order(
    state: MigrationState,
    event: MigrationEvent,
    r: Result<(MigrationState, MigrationAction), PongError>,
) -> bool {
    match migration_transition(state.phase, event) {
        None => out_of_order_answer(r),
        Some((next, point)) => {
            &&& (match point {
                Some(p) => state.failpoints.armed_view() == Some(p) ==> fault_answer(r, p),
                None => true,
            })
            &&& (match r {
                Ok((s, _)) => s.phase == next && s.failpoints.armed_view() == plan_after(
                    state.failpoints.armed_view(),
                    point,
                ),
                Err(_) => true,
            })
        },
    }
}

/// The digests and journal a step leaves as they were.
pub open spec fn keeps_record(before: MigrationState, after: MigrationState) -> bool {
    &&& after.journal == before.journal
    &&& after.source_root_digest == before.source_root_digest
    &&& after.plan_digest == before.plan_digest
    &&& after.manifest_digest == before.manifest_digest
    &&& after.selector_digest == before.selector_digest
}

/// The digests a step leaves as they were, the journal aside.
pub open spec fn keeps_digests(before: MigrationState, after: MigrationState) -> bool {
    &&& after.source_root_digest == before.source_root_digest
    &&& after.plan_digest == before.plan_digest
    &&& after.manifest_digest == before.manifest_digest
    &&& after.selector_digest == before.selector_digest
}

/// The identity and plan fields of a journal that later steps never change.
pub open spec fn journal_identity_kept(before: MigrationJournal, after: MigrationJournal) -> bool {
    &&& after.journal_version == before.journal_version
    &&& after.migration_id == before.migration_id
    &&& after.source_generation_id == before.source_generation_id
    &&& after.target_generation_id == before.target_generation_id
    &&& after.plan_digest == before.plan_digest
    &&& after.source_root_digest == before.source_root_digest
    &&& after.source_metadata_digest == before.source_metadata_digest
}

/// A step whose only possible failure is the fault armed at `point`, and
/// whose success asks for `action` and keeps the record.
pub open spec fn plain_step(
    state: MigrationState,
    point: MigrationFailpoint,
    action: MigrationAction,
    r: Result<(MigrationState, MigrationAction), PongError>,
) -> bool {
    match r {
        Ok((s, a)) => a == action && keeps_record(state, s),
        Err(_) => state.failpoints.armed_view() == Some(point),
    }
}

/// The manifest that attests the migrated generation.
pub open spec fn manifest_attests(
    m: RepositoryGenerationManifest,
    spec: MigrationSpec,
    source_root_digest: Seq<char>,
    metadata_digest: Seq<char>,
    metadata_size: u64,
    profile_id: Seq<char>,
    profile_version: Seq<char>,
) -> bool {
    &&& m.manifest_version == 1
    &&& m.generation_id == spec.target_generation_id
    &&& m.migration_id == spec.migration_id
    &&& m.repository_format@ == GENERATION_REPOSITORY_FORMAT@
    &&& m.schema_version@ == GENERATION_SCHEMA_VERSION@
    &&& m.storage_driver@ == STORAGE_DRIVER@
    &&& m.source_marker_digest@ == source_root_digest
    &&& m.metadata_digest@ == metadata_digest
    &&& m.metadata_size == metadata_size
    &&& m.redaction_profile_id@ == profile_id
    &&& m.redaction_profile_version@ == profile_version
}

/// The answer to the legacy source read: a missing or irregular metadata
/// file, or another format, is refused; else the plan over the source's
/// digests binds a journal, and the target is prepared.
pub open spec fn source_answer(
    spec: MigrationSpec,
    state: MigrationState,
    root: String,
    metadata_file: Option<EntryKind>,
    source_format: String,
    source_parts: Vec<(String, Vec<u8>)>,
    existing: Option<MigrationJournal>,
    r: Result<(MigrationState, MigrationAction), PongError>,
) -> bool {
    if metadata_file != Some(EntryKind::File) {
        match r {
            Err(PongError::Integrity(m)) => m@ == "legacy metadata file is missing or not regular"@,
            _ => false,
        }
    } else if source_format@ != REPOSITORY_FORMAT@ {
        match r {
            Err(PongError::Unsupported(m)) => m@
                == "migration source is not a legacy v0.1 repository"@,
            _ => false,
        }
    } else {
        let metadata = byte_digest_text(database_frame(source_parts@));
        let plan = planned_digest(spec, root@, metadata);
        match r {
            Ok((s, MigrationAction::PrepareTarget { write_journal, temporary })) => {
                &&& s.journal is Some
                &&& journal_bound(existing, spec, plan, root@, metadata, Ok((s.journal->0, write_journal)))
                &&& s.source_root_digest == root
                &&& s.plan_digest@ == plan
                &&& s.manifest_digest == state.manifest_digest
                &&& s.selector_digest == state.selector_digest
                &&& temporary@ == "."@ + spec.target_generation_id@ + "."@ + spec.migration_id@
                    + ".tmp"@
            },
            Ok(_) => false,
            Err(e) => journal_bound(existing, spec, plan, root@, metadata, Err(e)),
        }
    }
}

/// The answer to what stands at the target path: nothing is allocated
/// fresh; a generation left by this migration is replaced; anything else
/// is refused.
pub open spec fn probe_answer(
    spec: MigrationSpec,
    state: MigrationState,
    existing: Option<ExistingTarget>,
    r: Result<(MigrationState, MigrationAction), PongError>,
) -> bool {
    let allocates = |remove: bool|
        match r {
            Ok((s, MigrationAction::AllocateTarget { remove_existing })) => remove_existing == remove
                && keeps_record(state, s),
            _ => false,
        };
    match existing {
        None => allocates(false),
        Some(ExistingTarget::NotDirectory) => match r {
            Err(PongError::Integrity(m)) => m@ == "existing target generation is not a safe directory"@,
            _ => false,
        },
        Some(ExistingTarget::NoManifest) => match r {
            Err(PongError::RecoveryRequired(m)) => m@
                == "an existing target generation has no readable manifest"@,
            _ => false,
        },
        Some(ExistingTarget::UnsafeManifest) => match r {
            Err(PongError::RecoveryRequired(m)) => m@
                == "an existing target generation manifest is not safe"@,
            _ => false,
        },
        Some(ExistingTarget::InvalidManifest) => match r {
            Err(PongError::RecoveryRequired(m)) => m@ == "existing target manifest is invalid"@,
            _ => false,
        },
        Some(ExistingTarget::Manifest(found)) => if found.migration_id@ == spec.migration_id@ {
            allocates(true)
        } else {
            match r {
                Err(PongError::Conflict(m)) => m@
                    == "target generation is already owned by another migration"@,
                _ => false,
            }
        },
    }
}

/// The answer to a verified target: the manifest to publish, and the
/// journal marked `target_verified` with the target's metadata digest.
pub open spec fn verified_answer(
    spec: MigrationSpec,
    state: MigrationState,
    metadata_digest: String,
    metadata_size: u64,
    profile_id: String,
    profile_version: String,
    r: Result<(MigrationState, MigrationAction), PongError>,
) -> bool {
    match state.journal {
        None => out_of_order_answer(r),
        Some(j) => match r {
            Ok((s, MigrationAction::PublishGeneration(m))) => {
                &&& manifest_attests(
                    m,
                    spec,
                    state.source_root_digest@,
                    metadata_digest@,
                    metadata_size,
                    profile_id@,
                    profile_version@,
                )
                &&& keeps_digests(state, s)
                &&& s.journal is Some
                &&& journal_identity_kept(j, s.journal->0)
                &&& s.journal->0.status@ == "target_verified"@
                &&& s.journal->0.target_metadata_digest == Some(metadata_digest)
                &&& s.journal->0.selector_digest == j.selector_digest
                &&& s.journal->0.finalized_at == j.finalized_at
            },
            _ => false,
        },
    }
}

/// The answer to a published generation: the selector that makes it
/// active, over the digest of its manifest.
pub open spec fn published_answer(
    spec: MigrationSpec,
    state: MigrationState,
    manifest_digest: String,
    r: Result<(MigrationState, MigrationAction), PongError>,
) -> bool {
    match r {
        Ok((s, MigrationAction::EncodeSelector(sel))) => {
            &&& sel.marker_version == REPOSITORY_SELECTOR_VERSION
            &&& sel.repository_format@ == GENERATION_REPOSITORY_FORMAT@
            &&& sel.schema_version@ == GENERATION_SCHEMA_VERSION@
            &&& sel.storage_driver@ == STORAGE_DRIVER@
            &&& sel.active_generation == spec.target_generation_id
            &&& sel.migration_id == spec.migration_id
            &&& sel.generation_manifest_digest@ == manifest_digest@
            &&& s.manifest_digest == manifest_digest
            &&& s.journal == state.journal
            &&& s.source_root_digest == state.source_root_digest
            &&& s.plan_digest == state.plan_digest
            &&& s.selector_digest == state.selector_digest
        },
        Ok(_) => false,
        Err(_) => state.failpoints.armed_view() == Some(MigrationFailpoint::AfterVerify),
    }
}

/// The answer to an encoded selector: its digest is recorded and the root
/// document is to be replaced.
pub open spec fn encoded_answer(
    state: MigrationState,
    selector_digest: String,
    r: Result<(MigrationState, MigrationAction), PongError>,
) -> bool {
    match r {
        Ok((s, a)) => {
            &&& a == MigrationAction::ReplaceSelector
            &&& s.selector_digest == selector_digest
            &&& s.journal == state.journal
            &&& s.source_root_digest == state.source_root_digest
            &&& s.plan_digest == state.plan_digest
            &&& s.manifest_digest == state.manifest_digest
        },
        Err(_) => state.failpoints.armed_view() == Some(MigrationFailpoint::BeforeSelectorReplace),
    }
}

/// The journal after the selector commit: the selector digest recorded
/// and the status `selector_committed`.
pub open spec fn committed_journal(before: Option<MigrationJournal>, after: Option<MigrationJournal>, selector_digest: String) -> bool {
    match (before, after) {
        (Some(j), Some(k)) => {
            &&& journal_identity_kept(j, k)
            &&& k.target_metadata_digest == j.target_metadata_digest
            &&& k.selector_digest == Some(selector_digest)
            &&& k.status@ == "selector_committed"@
            &&& k.finalized_at == j.finalized_at
        },
        (None, None) => true,
        _ => false,
    }
}

/// The journal after finalizing: the status `finalized`, completed by the
/// migration itself.
pub open spec fn finalized_journal(before: Option<MigrationJournal>, after: Option<MigrationJournal>) -> bool {
    match (before, after) {
        (Some(j), Some(k)) => {
            &&& journal_identity_kept(j, k)
            &&& k.target_metadata_digest == j.target_metadata_digest
            &&& k.selector_digest == j.selector_digest
            &&& k.status@ == "finalized"@
            &&& k.finalized_at matches Some(f) && f@ == "migration-complete"@
        },
        (None, None) => true,
        _ => false,
    }
}

/// The migration's answer once its journal is finalized.
pub open spec fn finished_answer(
    spec: MigrationSpec,
    state: MigrationState,
    r: Result<(MigrationState, MigrationAction), PongError>,
) -> bool {
    match r {
        Ok((s, MigrationAction::Finish(o))) => {
            &&& !o.already_active
            &&& o.migration_id == spec.migration_id
            &&& o.target_generation_id == spec.target_generation_id
            &&& o.plan_digest == state.plan_digest
            &&& o.selector_digest == state.selector_digest
            &&& o.generation_manifest_digest == state.manifest_digest
            &&& (match state.journal {
                Some(j) => o.source_generation_id == j.source_generation_id,
                None => o.source_generation_id@ == "legacy-v0.1"@,
            })
            &&& keeps_record(state, s)
        },
        Ok(_) => false,
        Err(_) => state.failpoints.armed_view() == Some(MigrationFailpoint::AfterJournalFinalize),
    }
}

/// What a step in order answers, event by event.
pub open spec fn migration_answer(
    spec: MigrationSpec,
    state: MigrationState,
    event: MigrationEvent,
    r: Result<(MigrationState, MigrationAction), PongError>,
) -> bool {
    match event {
        MigrationEvent::ActiveRoot { selector, journal, selector_digest } => match r {
            Ok((_, MigrationAction::Finish(o))) => active_outcome(
                spec,
                selector,
                journal,
                selector_digest@,
                Ok(o),
            ),
            Ok(_) => false,
            Err(e) => active_outcome(spec, selector, journal, selector_digest@, Err(e)),
        },
        MigrationEvent::LegacyRoot => plain_step(
            state,
            MigrationFailpoint::Preflight,
            MigrationAction::ReadSource,
            r,
        ),
        MigrationEvent::SourceRead {
            source_root_digest,
            metadata_file,
            source_format,
            source_parts,
            journal,
        } => source_answer(
            spec,
            state,
            source_root_digest,
            metadata_file,
            source_format,
            source_parts,
            journal,
            r,
        ),
        MigrationEvent::TargetProbed(existing) => probe_answer(spec, state, existing, r),
        MigrationEvent::TargetAllocated => plain_step(
            state,
            MigrationFailpoint::TargetAllocated,
            MigrationAction::Backup,
            r,
        ),
        MigrationEvent::BackedUp => plain_step(
            state,
            MigrationFailpoint::AfterBackup,
            MigrationAction::RewriteTarget,
            r,
        ),
        MigrationEvent::Rewritten => plain_step(
            state,
            MigrationFailpoint::AfterCheckpoint,
            MigrationAction::VerifyTarget,
            r,
        ),
        MigrationEvent::TargetVerified { metadata_digest, metadata_size, profile_id, profile_version } =>
            verified_answer(
            spec,
            state,
            metadata_digest,
            metadata_size,
            profile_id,
            profile_version,
            r,
        ),
        MigrationEvent::GenerationPublished { manifest_digest } => published_answer(
            spec,
            state,
            manifest_digest,
            r,
        ),
        MigrationEvent::SelectorEncoded { selector_digest } => encoded_answer(state, selector_digest, r),
        MigrationEvent::SelectorReplaced => plain_step(
            state,
            MigrationFailpoint::AfterSelectorReplace,
            MigrationAction::SyncSelector,
            r,
        ),
        MigrationEvent::SelectorSynced => match r {
            Ok((s, a)) => a == MigrationAction::CommitJournal && keeps_digests(state, s)
                && committed_journal(state.journal, s.journal, state.selector_digest),
            Err(_) => state.failpoints.armed_view() == Some(
                MigrationFailpoint::AfterSelectorDirectorySync,
            ),
        },
        MigrationEvent::JournalCommitted => match r {
            Ok((s, a)) => a == MigrationAction::FinalizeJournal && keeps_digests(state, s)
                && finalized_journal(state.journal, s.journal),
            Err(_) => false,
        },
        MigrationEvent::JournalFinalized => finished_answer(spec, state, r),
    }
}

fn out_of_order_migration() -> (e: PongError)
    ensures
        e matches PongError::Integrity(m) && m@ == "repository migration received an event out of order"@,
{
    PongError::Integrity(text_of("repository migration received an event out of order"))
}

/// One step of a migration from a legacy repository to a generation, in
/// order: an active selector is answered at once; otherwise
/// the source is read and bound to a journal, the target generation is
/// prepared, backed up, rewritten and verified, published under its
/// manifest, the selector replaced and synced, and the journal committed
/// and finalized, each durable boundary under the one-shot fault plan.
#[verifier::rlimit(100)]
pub fn migration_step(spec: &MigrationSpec, state: MigrationState, event: MigrationEvent) -> (r: Result<
    (MigrationState, MigrationAction),
    PongError,
>)
    ensures
        migration_order(state, event, r),
        migration_transition(state.phase, event) is Some ==> migration_answer(*spec, state, event, r),
{
    let MigrationState {
        phase,
        mut failpoints,
        journal,
        source_root_digest,
        plan_digest: planned,
        manifest_digest,
        selector_digest,
    } = state;
    match event {
        MigrationEvent::ActiveRoot { selector, journal: active, selector_digest: digest } => match phase {
            MigrationPhase::Start => {
                let outcome = match active_migration_outcome(spec, &selector, &active, digest.as_str()) {
                    Ok(o) => o,
                    Err(e) => {
                        return Err(e);
                    },
                };
                Ok(
                    (
                        MigrationState {
                            phase: MigrationPhase::Done,
                            failpoints,
                            journal,
                            source_root_digest,
                            plan_digest: planned,
                            manifest_digest,
                            selector_digest,
                        },
                        MigrationAction::Finish(outcome),
                    ),
                )
            },
            _ => Err(out_of_order_migration()),
        },
        MigrationEvent::LegacyRoot => match phase {
            MigrationPhase::Start => {
                if let Err(e) = fault_if(&mut failpoints, MigrationFailpoint::Preflight) {
                    return Err(e);
                }
                Ok(
                    (
                        MigrationState {
                            phase: MigrationPhase::Preflight,
                            failpoints,
                            journal,
                            source_root_digest,
                            plan_digest: planned,
                            manifest_digest,
                            selector_digest,
                        },
                        MigrationAction::ReadSource,
                    ),
                )
            },
            _ => Err(out_of_order_migration()),
        },
        MigrationEvent::SourceRead {
            source_root_digest: root,
            metadata_file,
            source_format,
            source_parts,
            journal: existing,
        } => match phase {
            MigrationPhase::Preflight => {
                if metadata_file != Some(EntryKind::File) {
                    return Err(
                        PongError::Integrity(text_of("legacy metadata file is missing or not regular")),
                    );
                }
                if !str_equal(source_format.as_str(), REPOSITORY_FORMAT) {
                    return Err(
                        PongError::Unsupported(
                            text_of("migration source is not a legacy v0.1 repository"),
                        ),
                    );
                }
                let metadata_digest = source_database_digest(&source_parts);
                let plan = match plan_digest(spec, root.as_str(), metadata_digest.as_str()) {
                    Ok(p) => p,
                    Err(e) => {
                        return Err(e);
                    },
                };
                let (bound, write) = match migration_journal_for(
                    existing,
                    spec,
                    plan.as_str(),
                    root.as_str(),
                    metadata_digest.as_str(),
                ) {
                    Ok(b) => b,
                    Err(e) => {
                        return Err(e);
                    },
                };
                let temporary = temporary_generation_name(spec);
                Ok(
                    (
                        MigrationState {
                            phase: MigrationPhase::Prepared,
                            failpoints,
                            journal: Some(bound),
                            source_root_digest: root,
                            plan_digest: plan,
                            manifest_digest,
                            selector_digest,
                        },
                        MigrationAction::PrepareTarget { write_journal: write, temporary },
                    ),
                )
            },
            _ => Err(out_of_order_migration()),
        },
        MigrationEvent::TargetProbed(existing) => match phase {
            MigrationPhase::Prepared => {
                let remove_existing = match existing {
                    None => false,
                    Some(ExistingTarget::NotDirectory) => {
                        return Err(
                            PongError::Integrity(
                                text_of("existing target generation is not a safe directory"),
                            ),
                        );
                    },
                    Some(ExistingTarget::NoManifest) => {
                        return Err(
                            PongError::RecoveryRequired(
                                text_of("an existing target generation has no readable manifest"),
                            ),
                        );
                    },
                    Some(ExistingTarget::UnsafeManifest) => {
                        return Err(
                            PongError::RecoveryRequired(
                                text_of("an existing target generation manifest is not safe"),
                            ),
                        );
                    },
                    Some(ExistingTarget::InvalidManifest) => {
                        return Err(
                            PongError::RecoveryRequired(text_of("existing target manifest is invalid")),
                        );
                    },
                    Some(ExistingTarget::Manifest(found)) => {
                        if let Err(e) = check_existing_target(&found, spec) {
                            return Err(e);
                        }
                        true
                    },
                };
                Ok(
                    (
                        MigrationState {
                            phase: MigrationPhase::TargetReady,
                            failpoints,
                            journal,
                            source_root_digest,
                            plan_digest: planned,
                            manifest_digest,
                            selector_digest,
                        },
                        MigrationAction::AllocateTarget { remove_existing },
                    ),
                )
            },
            _ => Err(out_of_order_migration()),
        },
        MigrationEvent::TargetAllocated => match phase {
            MigrationPhase::TargetReady => {
                if let Err(e) = fault_if(&mut failpoints, MigrationFailpoint::TargetAllocated) {
                    return Err(e);
                }
                Ok(
                    (
                        MigrationState {
                            phase: MigrationPhase::Allocated,
                            failpoints,
                            journal,
                            source_root_digest,
                            plan_digest: planned,
                            manifest_digest,
                            selector_digest,
                        },
                        MigrationAction::Backup,
                    ),
                )
            },
            _ => Err(out_of_order_migration()),
        },
        MigrationEvent::BackedUp => match phase {
            MigrationPhase::Allocated => {
                if let Err(e) = fault_if(&mut failpoints, MigrationFailpoint::AfterBackup) {
                    return Err(e);
                }
                Ok(
                    (
                        MigrationState {
                            phase: MigrationPhase::BackedUp,
                            failpoints,
                            journal,
                            source_root_digest,
                            plan_digest: planned,
                            manifest_digest,
                            selector_digest,
                        },
                        MigrationAction::RewriteTarget,
                    ),
                )
            },
            _ => Err(out_of_order_migration()),
        },
        MigrationEvent::Rewritten => match phase {
            MigrationPhase::BackedUp => {
                if let Err(e) = fault_if(&mut failpoints, MigrationFailpoint::AfterCheckpoint) {
                    return Err(e);
                }
                Ok(
                    (
                        MigrationState {
                            phase: MigrationPhase::Rewritten,
                            failpoints,
                            journal,
                            source_root_digest,
                            plan_digest: planned,
                            manifest_digest,
                            selector_digest,
                        },
                        MigrationAction::VerifyTarget,
                    ),
                )
            },
            _ => Err(out_of_order_migration()),
        },
        MigrationEvent::TargetVerified { metadata_digest, metadata_size, profile_id, profile_version } => {
            match phase {
                MigrationPhase::Rewritten => {
                    let mut journal = match journal {
                        Some(j) => j,
                        None => {
                            return Err(out_of_order_migration());
                        },
                    };
                    let manifest = generation_manifest_for(
                        spec,
                        source_root_digest.as_str(),
                        metadata_digest.as_str(),
                        metadata_size,
                        profile_id.as_str(),
                        profile_version.as_str(),
                    );
                    journal.target_metadata_digest = Some(metadata_digest);
                    journal.status = text_of("target_verified");
                    Ok(
                        (
                            MigrationState {
                                phase: MigrationPhase::Verified,
                                failpoints,
                                journal: Some(journal),
                                source_root_digest,
                                plan_digest: planned,
                                manifest_digest,
                                selector_digest,
                            },
                            MigrationAction::PublishGeneration(manifest),
                        ),
                    )
                },
                _ => Err(out_of_order_migration()),
            }
        },
        MigrationEvent::GenerationPublished { manifest_digest: published } => match phase {
            MigrationPhase::Verified => {
                if let Err(e) = fault_if(&mut failpoints, MigrationFailpoint::AfterVerify) {
                    return Err(e);
                }
                let selector = selector_for(spec, published.as_str());
                Ok(
                    (
                        MigrationState {
                            phase: MigrationPhase::SelectorEncoded,
                            failpoints,
                            journal,
                            source_root_digest,
                            plan_digest: planned,
                            manifest_digest: published,
                            selector_digest,
                        },
                        MigrationAction::EncodeSelector(selector),
                    ),
                )
            },
            _ => Err(out_of_order_migration()),
        },
        MigrationEvent::SelectorEncoded { selector_digest: encoded } => match phase {
            MigrationPhase::SelectorEncoded => {
                if let Err(e) = fault_if(&mut failpoints, MigrationFailpoint::BeforeSelectorReplace) {
                    return Err(e);
                }
                Ok(
                    (
                        MigrationState {
                            phase: MigrationPhase::SelectorReplaced,
                            failpoints,
                            journal,
                            source_root_digest,
                            plan_digest: planned,
                            manifest_digest,
                            selector_digest: encoded,
                        },
                        MigrationAction::ReplaceSelector,
                    ),
                )
            },
            _ => Err(out_of_order_migration()),
        },
        MigrationEvent::SelectorReplaced => match phase {
            MigrationPhase::SelectorReplaced => {
                if let Err(e) = fault_if(&mut failpoints, MigrationFailpoint::AfterSelectorReplace) {
                    return Err(e);
                }
                Ok(
                    (
                        MigrationState {
                            phase: MigrationPhase::SelectorSynced,
                            failpoints,
                            journal,
                            source_root_digest,
                            plan_digest: planned,
                            manifest_digest,
                            selector_digest,
                        },
                        MigrationAction::SyncSelector,
                    ),
                )
            },
            _ => Err(out_of_order_migration()),
        },
        MigrationEvent::SelectorSynced => match phase {
            MigrationPhase::SelectorSynced => {
                if let Err(e) = fault_if(&mut failpoints, MigrationFailpoint::AfterSelectorDirectorySync) {
                    return Err(e);
                }
                let journal = match journal {
                    Some(mut j) => {
                        j.selector_digest = Some(selector_digest.clone());
                        j.status = text_of("selector_committed");
                        Some(j)
                    },
                    None => None,
                };
                Ok(
                    (
                        MigrationState {
                            phase: MigrationPhase::JournalCommitted,
                            failpoints,
                            journal,
                            source_root_digest,
                            plan_digest: planned,
                            manifest_digest,
                            selector_digest,
                        },
                        MigrationAction::CommitJournal,
                    ),
                )
            },
            _ => Err(out_of_order_migration()),
        },
        MigrationEvent::JournalCommitted => match phase {
            MigrationPhase::JournalCommitted => {
                let journal = match journal {
                    Some(mut j) => {
                        j.status = text_of("finalized");
                        j.finalized_at = Some(text_of("migration-complete"));
                        Some(j)
                    },
                    None => None,
                };
                Ok(
                    (
                        MigrationState {
                            phase: MigrationPhase::Finalizing,
                            failpoints,
                            journal,
                            source_root_digest,
                            plan_digest: planned,
                            manifest_digest,
                            selector_digest,
                        },
                        MigrationAction::FinalizeJournal,
                    ),
                )
            },
            _ => Err(out_of_order_migration()),
        },
        MigrationEvent::JournalFinalized => match phase {
            MigrationPhase::Finalizing => {
                if let Err(e) = fault_if(&mut failpoints, MigrationFailpoint::AfterJournalFinalize) {
                    return Err(e);
                }
                let source_generation_id = match &journal {
                    Some(j) => j.source_generation_id.clone(),
                    None => text_of("legacy-v0.1"),
                };
                let outcome = MigrationOutcome {
                    migration_id: spec.migration_id.clone(),
                    source_generation_id,
                    target_generation_id: spec.target_generation_id.clone(),
                    plan_digest: planned.clone(),
                    selector_digest: selector_digest.clone(),
                    generation_manifest_digest: manifest_digest.clone(),
                    already_active: false,
                };
                Ok(
                    (
                        MigrationState {
                            phase: MigrationPhase::Done,
                            failpoints,
                            journal,
                            source_root_digest,
                            plan_digest: planned,
                            manifest_digest,
                            selector_digest,
                        },
                        MigrationAction::Finish(outcome),
                    ),
                )
            },
            _ => Err(out_of_order_migration()),
        },
    }
}

} // verus!
