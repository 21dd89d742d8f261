//! Stable domain and storage failures exposed by the Core primitive ports.
use crate::text::{chars_of, i64_decimal, signed_decimal, string_from_chars};
use crate::canonical::append_chars;
use vstd::prelude::*;

verus! {

/// The host error classes the storage boundaries tell apart.
#[derive(Debug, Clone, Copy, PartialEq, Eq, Structural)]
pub enum IoErrorKind {
    PermissionDenied,
    NotFound,
    AlreadyExists,
    WouldBlock,
    Other,
}

/// The host family whose error numbering applies.
#[derive(Debug, Clone, Copy, PartialEq, Eq, Structural)]
pub enum HostPlatform {
    Windows,
    Linux,
    MacOs,
    Other,
}

/// A host I/O failure as plain values: its class, the OS error number when
/// there is one, and its display text.
#[derive(Debug, Clone)]
pub struct IoFailure {
    pub kind: IoErrorKind,
    pub raw_os_error: Option<i32>,
    pub message: String,
}

/// The SQLite result codes the storage boundary distinguishes.
#[derive(Debug, Clone, Copy, PartialEq, Eq, Structural)]
pub enum SqliteErrorCode {
    DiskFull,
    PermissionDenied,
    ReadOnly,
    AuthorizationForStatementDenied,
    Other,
}

/// Stable domain and storage failures.
#[derive(Debug, Clone)]
pub enum PongError {
    Io(IoFailure),
    /// A SQLite failure, by its display text.
    Sqlite(String),
    Serialization(String),
    InvalidInput(String),
    Integrity(String),
    NotFound(String),
    Conflict(String),
    IdempotencyKeyReuse(String),
    Unsupported(String),
    RecoveryRequired(String),
    ResourceExhausted(String),
    PermissionDenied(String),
    /// A permission failure that keeps the host OS error for diagnostics;
    /// its stable code is still `PERMISSION_DENIED`.
    PermissionDeniedWithOsError { message: String, raw_os_error: i32 },
    /// A deterministic test fault requested at a durable boundary.
    FaultInjected(String),
}

/// The machine-readable protocol code of an error.
pub open spec fn error_code(e: PongError) -> &'static str {
    match e {
        PongError::Io(_) => "IO_ERROR",
        PongError::Sqlite(_) => "STORAGE_ERROR",
        PongError::Serialization(_) => "SERIALIZATION_ERROR",
        PongError::InvalidInput(_) => "INVALID_INPUT",
        PongError::Integrity(_) => "INTEGRITY_ERROR",
        PongError::NotFound(_) => "NOT_FOUND",
        PongError::Conflict(_) => "CONFLICT",
        PongError::IdempotencyKeyReuse(_) => "IDEMPOTENCY_KEY_REUSE",
        PongError::Unsupported(_) => "UNSUPPORTED",
        PongError::RecoveryRequired(_) => "RECOVERY_REQUIRED",
        PongError::ResourceExhausted(_) => "RESOURCE_EXHAUSTED",
        PongError::PermissionDenied(_) => "PERMISSION_DENIED",
        PongError::PermissionDeniedWithOsError { .. } => "PERMISSION_DENIED",
        PongError::FaultInjected(_) => "FAULT_INJECTED",
    }
}

/// The text shown for an error: a fixed prefix per kind, then its detail.
pub open spec fn display_text(e: PongError) -> Seq<char> {
    match e {
        PongError::Io(f) => "I/O error: "@ + f.message@,
        PongError::Sqlite(m) => "SQLite error: "@ + m@,
        PongError::Serialization(m) => "serialization error: "@ + m@,
        PongError::InvalidInput(m) => "invalid input: "@ + m@,
        PongError::Integrity(m) => "integrity error: "@ + m@,
        PongError::NotFound(m) => "not found: "@ + m@,
        PongError::Conflict(m) => "conflict: "@ + m@,
        PongError::IdempotencyKeyReuse(m) => "idempotency key reuse: "@ + m@,
        PongError::Unsupported(m) => "unsupported: "@ + m@,
        PongError::RecoveryRequired(m) => "recovery required: "@ + m@,
        PongError::ResourceExhausted(m) => "resource exhausted: "@ + m@,
        PongError::PermissionDenied(m) => "permission denied: "@ + m@,
        PongError::PermissionDeniedWithOsError { message, raw_os_error } => "permission denied: "@
            + message@ + " (raw_os_error="@ + signed_decimal(raw_os_error as int) + ")"@,
        PongError::FaultInjected(m) => "fault injected at "@ + m@,
    }
}

/// A host error that reports an ACL denial. Windows also reports sharing
/// and lock collisions as access denied, so there the ordinary conversion
/// does not classify it as a permission failure.
pub open spec fn is_filesystem_permission_error(kind: IoErrorKind, platform: HostPlatform) -> bool {
    kind == IoErrorKind::PermissionDenied && platform != HostPlatform::Windows
}

/// A host error number that reports exhausted storage capacity or quota.
pub open spec fn is_filesystem_capacity_error(raw: Option<i32>, platform: HostPlatform) -> bool {
    match raw {
        None => false,
        Some(code) => match platform {
            HostPlatform::Windows => code == 39 || code == 112 || code == 1295,
            HostPlatform::Linux => code == 28 || code == 122,
            HostPlatform::MacOs => code == 28 || code == 69,
            HostPlatform::Other => false,
        },
    }
}

/// The host error numbers of exhausted storage: on Linux no space (28) and
/// quota exceeded (122); on macOS no space (28) and quota exceeded (69); on
/// Windows handle-disk-full (39), disk full (112) and quota (1295). No
/// error without a number, and nothing on another platform, counts.
pub proof fn lemma_capacity_error_numbers(raw: Option<i32>, platform: HostPlatform)
    ensures
        platform == HostPlatform::Linux ==> (is_filesystem_capacity_error(raw, platform) <==> (raw
            == Some(28i32) || raw == Some(122i32))),
        platform == HostPlatform::MacOs ==> (is_filesystem_capacity_error(raw, platform) <==> (raw
            == Some(28i32) || raw == Some(69i32))),
        platform == HostPlatform::Windows ==> (is_filesystem_capacity_error(raw, platform) <==> (raw
            == Some(39i32) || raw == Some(112i32) || raw == Some(1295i32))),
        (raw is None || platform == HostPlatform::Other) ==> !is_filesystem_capacity_error(
            raw,
            platform,
        ),
{
}

/// The error the ordinary conversion of a host I/O failure gives.
pub open spec fn io_error_spec(failure: IoFailure, platform: HostPlatform, e: PongError) -> bool {
    if is_filesystem_permission_error(failure.kind, platform) {
        e matches PongError::PermissionDenied(m) && m@ == "filesystem operation was denied"@
    } else if is_filesystem_capacity_error(failure.raw_os_error, platform) {
        e matches PongError::ResourceExhausted(m) && m@ == "filesystem capacity is exhausted"@
    } else {
        e == PongError::Io(failure)
    }
}

pub fn text_of(s: &str) -> (r: String)
    ensures
        r@ == s@,
{
    s.to_owned()
}

pub fn is_capacity_error(raw: Option<i32>, platform: HostPlatform) -> (b: bool)
    ensures
        b == is_filesystem_capacity_error(raw, platform),
{
    match raw {
        None => false,
        Some(code) => match platform {
            HostPlatform::Windows => code == 39 || code == 112 || code == 1295,
            HostPlatform::Linux => code == 28 || code == 122,
            HostPlatform::MacOs => code == 28 || code == 69,
            HostPlatform::Other => false,
        },
    }
}

impl PongError {
    /// Classify a host I/O failure.
    pub fn from_io(failure: IoFailure, platform: HostPlatform) -> (e: PongError)
        ensures
            io_error_spec(failure, platform, e),
    {
        if failure.kind == IoErrorKind::PermissionDenied && platform != HostPlatform::Windows {
            PongError::PermissionDenied(text_of("filesystem operation was denied"))
        } else if is_capacity_error(failure.raw_os_error, platform) {
            PongError::ResourceExhausted(text_of("filesystem capacity is exhausted"))
        } else {
            PongError::Io(failure)
        }
    }

    /// Classify a failure at a protected repository read/write boundary,
    /// where an access denial is always a permission failure and keeps the
    /// host error number when there is one.
    pub fn from_protected_io(failure: IoFailure, platform: HostPlatform) -> (e: PongError)
        ensures
            (failure.kind == IoErrorKind::PermissionDenied || (platform == HostPlatform::Windows
                && failure.raw_os_error == Some(5i32))) ==> match failure.raw_os_error {
                Some(code) => e matches PongError::PermissionDeniedWithOsError {
                    message,
                    raw_os_error,
                } && raw_os_error == code && message@
                    == "protected repository access was denied"@,
                None => e matches PongError::PermissionDenied(m) && m@
                    == "protected repository access was denied"@,
            },
            !(failure.kind == IoErrorKind::PermissionDenied || (platform == HostPlatform::Windows
                && failure.raw_os_error == Some(5i32))) ==> if is_filesystem_capacity_error(
                failure.raw_os_error,
                platform,
            ) {
                e matches PongError::ResourceExhausted(m) && m@
                    == "filesystem capacity is exhausted"@
            } else {
                io_error_spec(failure, platform, e)
            },
    {
        let windows_denied = match failure.raw_os_error {
            Some(code) => platform == HostPlatform::Windows && code == 5,
            None => false,
        };
        if failure.kind == IoErrorKind::PermissionDenied || windows_denied {
            match failure.raw_os_error {
                Some(code) => PongError::PermissionDeniedWithOsError {
                    message: text_of("protected repository access was denied"),
                    raw_os_error: code,
                },
                None => PongError::PermissionDenied(
                    text_of("protected repository access was denied"),
                ),
            }
        } else if is_capacity_error(failure.raw_os_error, platform) {
            PongError::ResourceExhausted(text_of("filesystem capacity is exhausted"))
        } else {
            PongError::from_io(failure, platform)
        }
    }

    /// Classify a SQLite failure by its result code.
    pub fn from_sqlite(code: SqliteErrorCode, message: String) -> (e: PongError)
        ensures
            code == SqliteErrorCode::DiskFull ==> (e matches PongError::ResourceExhausted(m) && m@
                == "SQLite storage capacity is exhausted"@),
            (code == SqliteErrorCode::PermissionDenied || code == SqliteErrorCode::ReadOnly || code
                == SqliteErrorCode::AuthorizationForStatementDenied) ==> (e matches PongError::PermissionDenied(
                m,
            ) && m@ == "SQLite storage access was denied"@),
            code == SqliteErrorCode::Other ==> e == PongError::Sqlite(message),
    {
        match code {
            SqliteErrorCode::DiskFull => PongError::ResourceExhausted(
                text_of("SQLite storage capacity is exhausted"),
            ),
            SqliteErrorCode::PermissionDenied
            | SqliteErrorCode::ReadOnly
            | SqliteErrorCode::AuthorizationForStatementDenied => PongError::PermissionDenied(
                text_of("SQLite storage access was denied"),
            ),
            SqliteErrorCode::Other => PongError::Sqlite(message),
        }
    }

    /// The host OS error kept by a storage boundary, when there is one.
    pub fn raw_os_error(&self) -> (r: Option<i32>)
        ensures
            r == match *self {
                PongError::Io(f) => f.raw_os_error,
                PongError::PermissionDeniedWithOsError { raw_os_error, .. } => Some(raw_os_error),
                _ => None,
            },
    {
        match self {
            PongError::Io(failure) => failure.raw_os_error,
            PongError::PermissionDeniedWithOsError { raw_os_error, .. } => Some(*raw_os_error),
            _ => None,
        }
    }

    /// Machine-readable protocol code; callers must not branch on display text.
    pub fn code(&self) -> (r: &'static str)
        ensures
            r == error_code(*self),
    {
        match self {
            PongError::Io(_) => "IO_ERROR",
            PongError::Sqlite(_) => "STORAGE_ERROR",
            PongError::Serialization(_) => "SERIALIZATION_ERROR",
            PongError::InvalidInput(_) => "INVALID_INPUT",
            PongError::Integrity(_) => "INTEGRITY_ERROR",
            PongError::NotFound(_) => "NOT_FOUND",
            PongError::Conflict(_) => "CONFLICT",
            PongError::IdempotencyKeyReuse(_) => "IDEMPOTENCY_KEY_REUSE",
            PongError::Unsupported(_) => "UNSUPPORTED",
            PongError::RecoveryRequired(_) => "RECOVERY_REQUIRED",
            PongError::ResourceExhausted(_) => "RESOURCE_EXHAUSTED",
            PongError::PermissionDenied(_) => "PERMISSION_DENIED",
            PongError::PermissionDeniedWithOsError { .. } => "PERMISSION_DENIED",
            PongError::FaultInjected(_) => "FAULT_INJECTED",
        }
    }

    /// The display text of the error.
    pub fn to_string(&self) -> (r: String)
        ensures
            r@ == display_text(*self),
    {
        let mut out: Vec<char> = Vec::new();
        let (prefix, detail): (&str, &String) = match self {
            PongError::Io(failure) => ("I/O error: ", &failure.message),
            PongError::Sqlite(m) => ("SQLite error: ", m),
            PongError::Serialization(m) => ("serialization error: ", m),
            PongError::InvalidInput(m) => ("invalid input: ", m),
            PongError::Integrity(m) => ("integrity error: ", m),
            PongError::NotFound(m) => ("not found: ", m),
            PongError::Conflict(m) => ("conflict: ", m),
            PongError::IdempotencyKeyReuse(m) => ("idempotency key reuse: ", m),
            PongError::Unsupported(m) => ("unsupported: ", m),
            PongError::RecoveryRequired(m) => ("recovery required: ", m),
            PongError::ResourceExhausted(m) => ("resource exhausted: ", m),
            PongError::PermissionDenied(m) => ("permission denied: ", m),
            PongError::PermissionDeniedWithOsError { message, .. } => ("permission denied: ", message),
            PongError::FaultInjected(m) => ("fault injected at ", m),
        };
        let p = chars_of(prefix);
        append_chars(&mut out, p.as_slice());
        let d = chars_of(detail.as_str());
        append_chars(&mut out, d.as_slice());
        if let PongError::PermissionDeniedWithOsError { raw_os_error, .. } = self {
            let a = chars_of(" (raw_os_error=");
            append_chars(&mut out, a.as_slice());
            let n = i64_decimal(*raw_os_error as i64);
            append_chars(&mut out, n.as_slice());
            let c = chars_of(")");
            append_chars(&mut out, c.as_slice());
        }
        assert(out@ =~= display_text(*self));
        string_from_chars(out.as_slice())
    }
}

} // verus!
