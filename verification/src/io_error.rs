//! What kind of I/O failure a caller met.

use vstd::prelude::*;

verus! {

/// The kind of an I/O error.
#[derive(Clone, Copy, Debug, PartialEq, Eq, Hash, Structural)]
pub enum ErrorKind {
    NotFound,
    PermissionDenied,
    ConnectionRefused,
    ConnectionReset,
    HostUnreachable,
    NetworkUnreachable,
    ConnectionAborted,
    NotConnected,
    AddrInUse,
    AddrNotAvailable,
    NetworkDown,
    BrokenPipe,
    AlreadyExists,
    WouldBlock,
    NotADirectory,
    IsADirectory,
    DirectoryNotEmpty,
    ReadOnlyFilesystem,
    FilesystemLoop,
    StaleNetworkFileHandle,
    InvalidInput,
    InvalidData,
    TimedOut,
    WriteZero,
    StorageFull,
    NotSeekable,
    QuotaExceeded,
    FileTooLarge,
    ResourceBusy,
    ExecutableFileBusy,
    Deadlock,
    CrossesDevices,
    TooManyLinks,
    InvalidFilename,
    ArgumentListTooLong,
    Interrupted,
    Unsupported,
    UnexpectedEof,
    OutOfMemory,
    InProgress,
    Other,
    Uncategorized,
}

impl ErrorKind {
    /// The variant's name.
    pub open spec fn text(self) -> Seq<char> {
        match self {
            ErrorKind::NotFound => "NotFound"@,
            ErrorKind::PermissionDenied => "PermissionDenied"@,
            ErrorKind::ConnectionRefused => "ConnectionRefused"@,
            ErrorKind::ConnectionReset => "ConnectionReset"@,
            ErrorKind::HostUnreachable => "HostUnreachable"@,
            ErrorKind::NetworkUnreachable => "NetworkUnreachable"@,
            ErrorKind::ConnectionAborted => "ConnectionAborted"@,
            ErrorKind::NotConnected => "NotConnected"@,
            ErrorKind::AddrInUse => "AddrInUse"@,
            ErrorKind::AddrNotAvailable => "AddrNotAvailable"@,
            ErrorKind::NetworkDown => "NetworkDown"@,
            ErrorKind::BrokenPipe => "BrokenPipe"@,
            ErrorKind::AlreadyExists => "AlreadyExists"@,
            ErrorKind::WouldBlock => "WouldBlock"@,
            ErrorKind::NotADirectory => "NotADirectory"@,
            ErrorKind::IsADirectory => "IsADirectory"@,
            ErrorKind::DirectoryNotEmpty => "DirectoryNotEmpty"@,
            ErrorKind::ReadOnlyFilesystem => "ReadOnlyFilesystem"@,
            ErrorKind::FilesystemLoop => "FilesystemLoop"@,
            ErrorKind::StaleNetworkFileHandle => "StaleNetworkFileHandle"@,
            ErrorKind::InvalidInput => "InvalidInput"@,
            ErrorKind::InvalidData => "InvalidData"@,
            ErrorKind::TimedOut => "TimedOut"@,
            ErrorKind::WriteZero => "WriteZero"@,
            ErrorKind::StorageFull => "StorageFull"@,
            ErrorKind::NotSeekable => "NotSeekable"@,
            ErrorKind::QuotaExceeded => "QuotaExceeded"@,
            ErrorKind::FileTooLarge => "FileTooLarge"@,
            ErrorKind::ResourceBusy => "ResourceBusy"@,
            ErrorKind::ExecutableFileBusy => "ExecutableFileBusy"@,
            ErrorKind::Deadlock => "Deadlock"@,
            ErrorKind::CrossesDevices => "CrossesDevices"@,
            ErrorKind::TooManyLinks => "TooManyLinks"@,
            ErrorKind::InvalidFilename => "InvalidFilename"@,
            ErrorKind::ArgumentListTooLong => "ArgumentListTooLong"@,
            ErrorKind::Interrupted => "Interrupted"@,
            ErrorKind::Unsupported => "Unsupported"@,
            ErrorKind::UnexpectedEof => "UnexpectedEof"@,
            ErrorKind::OutOfMemory => "OutOfMemory"@,
            ErrorKind::InProgress => "InProgress"@,
            ErrorKind::Other => "Other"@,
            ErrorKind::Uncategorized => "Uncategorized"@,
        }
    }

    /// The variant's name.
    pub fn name(self) -> (name: &'static str)
        ensures
            name@ == self.text(),
    {
        match self {
            ErrorKind::NotFound => "NotFound",
            ErrorKind::PermissionDenied => "PermissionDenied",
            ErrorKind::ConnectionRefused => "ConnectionRefused",
            ErrorKind::ConnectionReset => "ConnectionReset",
            ErrorKind::HostUnreachable => "HostUnreachable",
            ErrorKind::NetworkUnreachable => "NetworkUnreachable",
            ErrorKind::ConnectionAborted => "ConnectionAborted",
            ErrorKind::NotConnected => "NotConnected",
            ErrorKind::AddrInUse => "AddrInUse",
            ErrorKind::AddrNotAvailable => "AddrNotAvailable",
            ErrorKind::NetworkDown => "NetworkDown",
            ErrorKind::BrokenPipe => "BrokenPipe",
            ErrorKind::AlreadyExists => "AlreadyExists",
            ErrorKind::WouldBlock => "WouldBlock",
            ErrorKind::NotADirectory => "NotADirectory",
            ErrorKind::IsADirectory => "IsADirectory",
            ErrorKind::DirectoryNotEmpty => "DirectoryNotEmpty",
            ErrorKind::ReadOnlyFilesystem => "ReadOnlyFilesystem",
            ErrorKind::FilesystemLoop => "FilesystemLoop",
            ErrorKind::StaleNetworkFileHandle => "StaleNetworkFileHandle",
            ErrorKind::InvalidInput => "InvalidInput",
            ErrorKind::InvalidData => "InvalidData",
            ErrorKind::TimedOut => "TimedOut",
            ErrorKind::WriteZero => "WriteZero",
            ErrorKind::StorageFull => "StorageFull",
            ErrorKind::NotSeekable => "NotSeekable",
            ErrorKind::QuotaExceeded => "QuotaExceeded",
            ErrorKind::FileTooLarge => "FileTooLarge",
            ErrorKind::ResourceBusy => "ResourceBusy",
            ErrorKind::ExecutableFileBusy => "ExecutableFileBusy",
            ErrorKind::Deadlock => "Deadlock",
            ErrorKind::CrossesDevices => "CrossesDevices",
            ErrorKind::TooManyLinks => "TooManyLinks",
            ErrorKind::InvalidFilename => "InvalidFilename",
            ErrorKind::ArgumentListTooLong => "ArgumentListTooLong",
            ErrorKind::Interrupted => "Interrupted",
            ErrorKind::Unsupported => "Unsupported",
            ErrorKind::UnexpectedEof => "UnexpectedEof",
            ErrorKind::OutOfMemory => "OutOfMemory",
            ErrorKind::InProgress => "InProgress",
            ErrorKind::Other => "Other",
            ErrorKind::Uncategorized => "Uncategorized",
        }
    }

    /// What a message calls it.
    pub open spec fn description_text(self) -> Seq<char> {
        match self {
            ErrorKind::NotFound => "entity not found"@,
            ErrorKind::PermissionDenied => "permission denied"@,
            ErrorKind::ConnectionRefused => "connection refused"@,
            ErrorKind::ConnectionReset => "connection reset"@,
            ErrorKind::HostUnreachable => "host unreachable"@,
            ErrorKind::NetworkUnreachable => "network unreachable"@,
            ErrorKind::ConnectionAborted => "connection aborted"@,
            ErrorKind::NotConnected => "not connected"@,
            ErrorKind::AddrInUse => "address in use"@,
            ErrorKind::AddrNotAvailable => "address not available"@,
            ErrorKind::NetworkDown => "network down"@,
            ErrorKind::BrokenPipe => "broken pipe"@,
            ErrorKind::AlreadyExists => "entity already exists"@,
            ErrorKind::WouldBlock => "operation would block"@,
            ErrorKind::NotADirectory => "not a directory"@,
            ErrorKind::IsADirectory => "is a directory"@,
            ErrorKind::DirectoryNotEmpty => "directory not empty"@,
            ErrorKind::ReadOnlyFilesystem => "read-only filesystem or storage medium"@,
            ErrorKind::FilesystemLoop => "filesystem loop or indirection limit (e.g. symlink loop)"@,
            ErrorKind::StaleNetworkFileHandle => "stale network file handle"@,
            ErrorKind::InvalidInput => "invalid input parameter"@,
            ErrorKind::InvalidData => "invalid data"@,
            ErrorKind::TimedOut => "timed out"@,
            ErrorKind::WriteZero => "write zero"@,
            ErrorKind::StorageFull => "no storage space"@,
            ErrorKind::NotSeekable => "seek on unseekable file"@,
            ErrorKind::QuotaExceeded => "quota exceeded"@,
            ErrorKind::FileTooLarge => "file too large"@,
            ErrorKind::ResourceBusy => "resource busy"@,
            ErrorKind::ExecutableFileBusy => "executable file busy"@,
            ErrorKind::Deadlock => "deadlock"@,
            ErrorKind::CrossesDevices => "cross-device link or rename"@,
            ErrorKind::TooManyLinks => "too many links"@,
            ErrorKind::InvalidFilename => "invalid filename"@,
            ErrorKind::ArgumentListTooLong => "argument list too long"@,
            ErrorKind::Interrupted => "operation interrupted"@,
            ErrorKind::Unsupported => "unsupported"@,
            ErrorKind::UnexpectedEof => "unexpected end of file"@,
            ErrorKind::OutOfMemory => "out of memory"@,
            ErrorKind::InProgress => "in progress"@,
            ErrorKind::Other => "other error"@,
            ErrorKind::Uncategorized => "uncategorized error"@,
        }
    }

    /// What a message calls it.
    pub fn description(self) -> (description: &'static str)
        ensures
            description@ == self.description_text(),
    {
        match self {
            ErrorKind::NotFound => "entity not found",
            ErrorKind::PermissionDenied => "permission denied",
            ErrorKind::ConnectionRefused => "connection refused",
            ErrorKind::ConnectionReset => "connection reset",
            ErrorKind::HostUnreachable => "host unreachable",
            ErrorKind::NetworkUnreachable => "network unreachable",
            ErrorKind::ConnectionAborted => "connection aborted",
            ErrorKind::NotConnected => "not connected",
            ErrorKind::AddrInUse => "address in use",
            ErrorKind::AddrNotAvailable => "address not available",
            ErrorKind::NetworkDown => "network down",
            ErrorKind::BrokenPipe => "broken pipe",
            ErrorKind::AlreadyExists => "entity already exists",
            ErrorKind::WouldBlock => "operation would block",
            ErrorKind::NotADirectory => "not a directory",
            ErrorKind::IsADirectory => "is a directory",
            ErrorKind::DirectoryNotEmpty => "directory not empty",
            ErrorKind::ReadOnlyFilesystem => "read-only filesystem or storage medium",
            ErrorKind::FilesystemLoop => "filesystem loop or indirection limit (e.g. symlink loop)",
            ErrorKind::StaleNetworkFileHandle => "stale network file handle",
            ErrorKind::InvalidInput => "invalid input parameter",
            ErrorKind::InvalidData => "invalid data",
            ErrorKind::TimedOut => "timed out",
            ErrorKind::WriteZero => "write zero",
            ErrorKind::StorageFull => "no storage space",
            ErrorKind::NotSeekable => "seek on unseekable file",
            ErrorKind::QuotaExceeded => "quota exceeded",
            ErrorKind::FileTooLarge => "file too large",
            ErrorKind::ResourceBusy => "resource busy",
            ErrorKind::ExecutableFileBusy => "executable file busy",
            ErrorKind::Deadlock => "deadlock",
            ErrorKind::CrossesDevices => "cross-device link or rename",
            ErrorKind::TooManyLinks => "too many links",
            ErrorKind::InvalidFilename => "invalid filename",
            ErrorKind::ArgumentListTooLong => "argument list too long",
            ErrorKind::Interrupted => "operation interrupted",
            ErrorKind::Unsupported => "unsupported",
            ErrorKind::UnexpectedEof => "unexpected end of file",
            ErrorKind::OutOfMemory => "out of memory",
            ErrorKind::InProgress => "in progress",
            ErrorKind::Other => "other error",
            ErrorKind::Uncategorized => "uncategorized error",
        }
    }
}

/// What each kind is called, as a name and in a message.
pub proof fn law_error_kinds_are_named(
    kind: ErrorKind,
    name: &'static str,
    description: &'static str,
)
    requires
        call_ensures(ErrorKind::name, (kind,), name),
        call_ensures(ErrorKind::description, (kind,), description),
    ensures
        name@ == (match kind {
            ErrorKind::NotFound => "NotFound"@,
            ErrorKind::PermissionDenied => "PermissionDenied"@,
            ErrorKind::ConnectionRefused => "ConnectionRefused"@,
            ErrorKind::ConnectionReset => "ConnectionReset"@,
            ErrorKind::HostUnreachable => "HostUnreachable"@,
            ErrorKind::NetworkUnreachable => "NetworkUnreachable"@,
            ErrorKind::ConnectionAborted => "ConnectionAborted"@,
            ErrorKind::NotConnected => "NotConnected"@,
            ErrorKind::AddrInUse => "AddrInUse"@,
            ErrorKind::AddrNotAvailable => "AddrNotAvailable"@,
            ErrorKind::NetworkDown => "NetworkDown"@,
            ErrorKind::BrokenPipe => "BrokenPipe"@,
            ErrorKind::AlreadyExists => "AlreadyExists"@,
            ErrorKind::WouldBlock => "WouldBlock"@,
            ErrorKind::NotADirectory => "NotADirectory"@,
            ErrorKind::IsADirectory => "IsADirectory"@,
            ErrorKind::DirectoryNotEmpty => "DirectoryNotEmpty"@,
            ErrorKind::ReadOnlyFilesystem => "ReadOnlyFilesystem"@,
            ErrorKind::FilesystemLoop => "FilesystemLoop"@,
            ErrorKind::StaleNetworkFileHandle => "StaleNetworkFileHandle"@,
            ErrorKind::InvalidInput => "InvalidInput"@,
            ErrorKind::InvalidData => "InvalidData"@,
            ErrorKind::TimedOut => "TimedOut"@,
            ErrorKind::WriteZero => "WriteZero"@,
            ErrorKind::StorageFull => "StorageFull"@,
            ErrorKind::NotSeekable => "NotSeekable"@,
            ErrorKind::QuotaExceeded => "QuotaExceeded"@,
            ErrorKind::FileTooLarge => "FileTooLarge"@,
            ErrorKind::ResourceBusy => "ResourceBusy"@,
            ErrorKind::ExecutableFileBusy => "ExecutableFileBusy"@,
            ErrorKind::Deadlock => "Deadlock"@,
            ErrorKind::CrossesDevices => "CrossesDevices"@,
            ErrorKind::TooManyLinks => "TooManyLinks"@,
            ErrorKind::InvalidFilename => "InvalidFilename"@,
            ErrorKind::ArgumentListTooLong => "ArgumentListTooLong"@,
            ErrorKind::Interrupted => "Interrupted"@,
            ErrorKind::Unsupported => "Unsupported"@,
            ErrorKind::UnexpectedEof => "UnexpectedEof"@,
            ErrorKind::OutOfMemory => "OutOfMemory"@,
            ErrorKind::InProgress => "InProgress"@,
            ErrorKind::Other => "Other"@,
            ErrorKind::Uncategorized => "Uncategorized"@,
        }),
        description@ == (match kind {
            ErrorKind::NotFound => "entity not found"@,
            ErrorKind::PermissionDenied => "permission denied"@,
            ErrorKind::ConnectionRefused => "connection refused"@,
            ErrorKind::ConnectionReset => "connection reset"@,
            ErrorKind::HostUnreachable => "host unreachable"@,
            ErrorKind::NetworkUnreachable => "network unreachable"@,
            ErrorKind::ConnectionAborted => "connection aborted"@,
            ErrorKind::NotConnected => "not connected"@,
            ErrorKind::AddrInUse => "address in use"@,
            ErrorKind::AddrNotAvailable => "address not available"@,
            ErrorKind::NetworkDown => "network down"@,
            ErrorKind::BrokenPipe => "broken pipe"@,
            ErrorKind::AlreadyExists => "entity already exists"@,
            ErrorKind::WouldBlock => "operation would block"@,
            ErrorKind::NotADirectory => "not a directory"@,
            ErrorKind::IsADirectory => "is a directory"@,
            ErrorKind::DirectoryNotEmpty => "directory not empty"@,
            ErrorKind::ReadOnlyFilesystem => "read-only filesystem or storage medium"@,
            ErrorKind::FilesystemLoop => "filesystem loop or indirection limit (e.g. symlink loop)"@,
            ErrorKind::StaleNetworkFileHandle => "stale network file handle"@,
            ErrorKind::InvalidInput => "invalid input parameter"@,
            ErrorKind::InvalidData => "invalid data"@,
            ErrorKind::TimedOut => "timed out"@,
            ErrorKind::WriteZero => "write zero"@,
            ErrorKind::StorageFull => "no storage space"@,
            ErrorKind::NotSeekable => "seek on unseekable file"@,
            ErrorKind::QuotaExceeded => "quota exceeded"@,
            ErrorKind::FileTooLarge => "file too large"@,
            ErrorKind::ResourceBusy => "resource busy"@,
            ErrorKind::ExecutableFileBusy => "executable file busy"@,
            ErrorKind::Deadlock => "deadlock"@,
            ErrorKind::CrossesDevices => "cross-device link or rename"@,
            ErrorKind::TooManyLinks => "too many links"@,
            ErrorKind::InvalidFilename => "invalid filename"@,
            ErrorKind::ArgumentListTooLong => "argument list too long"@,
            ErrorKind::Interrupted => "operation interrupted"@,
            ErrorKind::Unsupported => "unsupported"@,
            ErrorKind::UnexpectedEof => "unexpected end of file"@,
            ErrorKind::OutOfMemory => "out of memory"@,
            ErrorKind::InProgress => "in progress"@,
            ErrorKind::Other => "other error"@,
            ErrorKind::Uncategorized => "uncategorized error"@,
        }),
{
}

} // verus!
