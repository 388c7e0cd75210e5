//! The domain error taxonomy and the translation of storage failures into it.
use vstd::prelude::*;

verus! {

/// Declares the JSON codec's error type so that it can be translated.
#[verifier::external_type_specification]
#[verifier::external_body]
pub struct ExJsonError(serde_json::Error);

/// The three recoverable kinds of failure of the adapter.
#[derive(Debug, Clone, PartialEq)]
pub enum MysqlAggregateError {
    /// The expected-version precondition failed: a concurrent writer won.
    OptimisticLock,
    /// A transport-level failure; the caller may retry the whole operation.
    ConnectionError(String),
    /// Anything else, with a diagnostic text.
    UnknownError(String),
}

/// A failure as the storage driver reports it, reduced to plain values.
#[derive(Debug, Clone, PartialEq)]
pub enum StorageFailure {
    /// The database refused the statement; `code` is its SQLSTATE, if any.
    Database { code: Option<String>, message: String },
    /// The connection's input or output failed.
    Io(String),
    /// The TLS layer failed.
    Tls(String),
    /// The driver and the server disagree about the wire protocol.
    Protocol(String),
    /// Any other driver failure.
    Other(String),
}

/// The non-recoverable category: the wire contract with the server is broken.
#[derive(Debug, Clone, PartialEq)]
pub struct ProtocolMismatch {
    pub message: String,
}

/// SQLSTATE class 23 codes that signal a violated uniqueness constraint:
/// `23000` (integrity constraint violation, as MySQL reports a duplicate key)
/// and `23505` (unique violation).
pub open spec fn is_conflict_code(c: Seq<char>) -> bool {
    c =~= seq!['2', '3', '0', '0', '0'] || c =~= seq!['2', '3', '5', '0', '5']
}

/// What a storage failure becomes.
pub open spec fn translation(f: StorageFailure) -> Result<MysqlAggregateError, ProtocolMismatch> {
    match f {
        StorageFailure::Database { code, message } => {
            if code is Some && is_conflict_code(code->0@) {
                Ok(MysqlAggregateError::OptimisticLock)
            } else {
                Ok(MysqlAggregateError::UnknownError(message))
            }
        },
        StorageFailure::Io(m) => Ok(MysqlAggregateError::ConnectionError(m)),
        StorageFailure::Tls(m) => Ok(MysqlAggregateError::ConnectionError(m)),
        StorageFailure::Protocol(m) => Err(ProtocolMismatch { message: m }),
        StorageFailure::Other(m) => Ok(MysqlAggregateError::UnknownError(m)),
    }
}

/// Whether `code` is one of the SQLSTATE codes of a uniqueness violation.
pub fn is_conflict_sqlstate(code: &str) -> (r: bool)
    ensures
        r == is_conflict_code(code@),
{
    let n = code.unicode_len();
    if n != 5 {
        return false;
    }
    let c0 = code.get_char(0);
    let c1 = code.get_char(1);
    let c2 = code.get_char(2);
    let c3 = code.get_char(3);
    let c4 = code.get_char(4);
    if c0 != '2' || c1 != '3' || c3 != '0' {
        return false;
    }
    if c2 == '0' && c4 == '0' {
        assert(code@ =~= seq!['2', '3', '0', '0', '0']);
        true
    } else if c2 == '5' && c4 == '5' {
        assert(code@ =~= seq!['2', '3', '5', '0', '5']);
        true
    } else {
        false
    }
}

impl MysqlAggregateError {
    /// Translates a storage failure into one of the three recoverable kinds,
    /// or into the distinguished protocol-mismatch category.
    pub fn from_storage_failure(f: &StorageFailure) -> (r: Result<
        MysqlAggregateError,
        ProtocolMismatch,
    >)
        ensures
            r == translation(*f),
    {
        match f {
            StorageFailure::Database { code, message } => {
                match code {
                    Some(c) => {
                        if is_conflict_sqlstate(c.as_str()) {
                            return Ok(MysqlAggregateError::OptimisticLock);
                        }
                    },
                    None => {},
                }
                Ok(MysqlAggregateError::UnknownError(message.clone()))
            },
            StorageFailure::Io(m) => Ok(MysqlAggregateError::ConnectionError(m.clone())),
            StorageFailure::Tls(m) => Ok(MysqlAggregateError::ConnectionError(m.clone())),
            StorageFailure::Protocol(m) => Err(ProtocolMismatch { message: m.clone() }),
            StorageFailure::Other(m) => Ok(MysqlAggregateError::UnknownError(m.clone())),
        }
    }

    /// A payload that could not be encoded or decoded is an unknown error
    /// that carries the codec's message.
    pub fn from_json_error(err: &serde_json::Error) -> (r: MysqlAggregateError)
        ensures
            r matches MysqlAggregateError::UnknownError(m) && vstd::string::to_string_from_display_ensures::<serde_json::Error>(err, m),
    {
        MysqlAggregateError::UnknownError(err.to_string())
    }

    /// Whether this is the conflicting-concurrent-write kind.
    pub fn is_optimistic_lock(&self) -> (r: bool)
        ensures
            r == (*self is OptimisticLock),
    {
        match self {
            MysqlAggregateError::OptimisticLock => true,
            _ => false,
        }
    }

    /// The diagnostic text of the error.
    pub fn message(&self) -> (r: String)
        ensures
            match *self {
                MysqlAggregateError::OptimisticLock => r@ == "optimistic lock error"@,
                MysqlAggregateError::ConnectionError(m) => r == m,
                MysqlAggregateError::UnknownError(m) => r == m,
            },
    {
        match self {
            MysqlAggregateError::OptimisticLock => String::from_str("optimistic lock error"),
            MysqlAggregateError::ConnectionError(m) => m.clone(),
            MysqlAggregateError::UnknownError(m) => m.clone(),
        }
    }
}

/// The execution engine's distinction: a conflicting write or a technical failure.
#[derive(Debug, Clone, PartialEq)]
pub enum AggregateError {
    AggregateConflict,
    TechnicalError(String),
}

impl From<MysqlAggregateError> for AggregateError {
    fn from(err: MysqlAggregateError) -> (r: AggregateError) {
        match err {
            MysqlAggregateError::OptimisticLock => AggregateError::AggregateConflict,
            MysqlAggregateError::UnknownError(msg) => AggregateError::TechnicalError(msg),
            MysqlAggregateError::ConnectionError(msg) => AggregateError::TechnicalError(msg),
        }
    }
}

impl vstd::std_specs::convert::FromSpecImpl<MysqlAggregateError> for AggregateError {
    open spec fn obeys_from_spec() -> bool {
        true
    }

    open spec fn from_spec(err: MysqlAggregateError) -> AggregateError {
        aggregate_error_of(err)
    }
}

/// What the execution engine sees of an adapter error.
pub open spec fn aggregate_error_of(err: MysqlAggregateError) -> AggregateError {
    match err {
        MysqlAggregateError::OptimisticLock => AggregateError::AggregateConflict,
        MysqlAggregateError::UnknownError(msg) => AggregateError::TechnicalError(msg),
        MysqlAggregateError::ConnectionError(msg) => AggregateError::TechnicalError(msg),
    }
}

/// The view repository's distinction, which keeps connection failures apart.
#[derive(Debug, Clone, PartialEq)]
pub enum PersistenceError {
    OptimisticLockError,
    ConnectionError(String),
    UnknownError(String),
}

impl From<MysqlAggregateError> for PersistenceError {
    fn from(err: MysqlAggregateError) -> (r: PersistenceError) {
        match err {
            MysqlAggregateError::OptimisticLock => PersistenceError::OptimisticLockError,
            MysqlAggregateError::UnknownError(msg) => PersistenceError::UnknownError(msg),
            MysqlAggregateError::ConnectionError(msg) => PersistenceError::ConnectionError(msg),
        }
    }
}

impl vstd::std_specs::convert::FromSpecImpl<MysqlAggregateError> for PersistenceError {
    open spec fn obeys_from_spec() -> bool {
        true
    }

    open spec fn from_spec(err: MysqlAggregateError) -> PersistenceError {
        persistence_error_of(err)
    }
}

/// What the view repository's caller sees of an adapter error.
pub open spec fn persistence_error_of(err: MysqlAggregateError) -> PersistenceError {
    match err {
        MysqlAggregateError::OptimisticLock => PersistenceError::OptimisticLockError,
        MysqlAggregateError::UnknownError(msg) => PersistenceError::UnknownError(msg),
        MysqlAggregateError::ConnectionError(msg) => PersistenceError::ConnectionError(msg),
    }
}

/// Both downstream taxonomies collapse the adapter's kinds the same way:
/// an optimistic-lock failure, and only it, becomes the conflicting-write kind
/// of each, and every other kind keeps its diagnostic text.
pub proof fn lemma_translation_collapse(err: MysqlAggregateError)
    ensures
        (aggregate_error_of(err) is AggregateConflict)
            <==> (err is OptimisticLock),
        (persistence_error_of(err) is OptimisticLockError)
            <==> (err is OptimisticLock),
        err matches MysqlAggregateError::ConnectionError(m) ==> aggregate_error_of(err) == AggregateError::TechnicalError(m)
            && persistence_error_of(err) == PersistenceError::ConnectionError(m),
        err matches MysqlAggregateError::UnknownError(m) ==> aggregate_error_of(err) == AggregateError::TechnicalError(m)
            && persistence_error_of(err) == PersistenceError::UnknownError(m),
{
}

} // verus!
