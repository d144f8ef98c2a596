use vstd::prelude::*;

verus! {

/// Errors of filesystem operations.
#[derive(Clone, Debug, PartialEq, Eq)]
pub enum FsError {
    /// An I/O operation failed; the text describes it.
    Io(String),
    /// A record could not be serialized or deserialized.
    SerializeError(String),
    /// A name or item is missing.
    NotFound(&'static str),
    InodeNotFound,
    InvalidInput(&'static str),
    InvalidInodeType,
    InvalidFileHandle,
    AlreadyExists,
    AlreadyOpenForWrite,
    NotEmpty,
    Other(&'static str),
    InvalidPassword,
    InvalidDataDirStructure,
    /// The cipher failed; the text describes it.
    Crypto(String),
    /// The keyring failed; the text describes it.
    Keyring(String),
    /// A decimal number could not be parsed.
    ParseIntError(String),
    /// A background task failed.
    JoinError(String),
    /// A write would go past the largest size the cipher can hold.
    MaxFilesizeExceeded(usize),
}

pub type FsResult<T> = Result<T, FsError>;

} // verus!
