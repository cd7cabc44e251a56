//! Kinds of I/O errors.

use tendr::io_error::ErrorKind;

#[test]
fn kinds_are_named_and_described_as_the_standard_library_does() {
    let kinds = [
        (ErrorKind::NotFound, std::io::ErrorKind::NotFound),
        (ErrorKind::PermissionDenied, std::io::ErrorKind::PermissionDenied),
        (ErrorKind::ConnectionRefused, std::io::ErrorKind::ConnectionRefused),
        (ErrorKind::ConnectionReset, std::io::ErrorKind::ConnectionReset),
        (ErrorKind::HostUnreachable, std::io::ErrorKind::HostUnreachable),
        (ErrorKind::NetworkUnreachable, std::io::ErrorKind::NetworkUnreachable),
        (ErrorKind::ConnectionAborted, std::io::ErrorKind::ConnectionAborted),
        (ErrorKind::NotConnected, std::io::ErrorKind::NotConnected),
        (ErrorKind::AddrInUse, std::io::ErrorKind::AddrInUse),
        (ErrorKind::AddrNotAvailable, std::io::ErrorKind::AddrNotAvailable),
        (ErrorKind::NetworkDown, std::io::ErrorKind::NetworkDown),
        (ErrorKind::BrokenPipe, std::io::ErrorKind::BrokenPipe),
        (ErrorKind::AlreadyExists, std::io::ErrorKind::AlreadyExists),
        (ErrorKind::WouldBlock, std::io::ErrorKind::WouldBlock),
        (ErrorKind::NotADirectory, std::io::ErrorKind::NotADirectory),
        (ErrorKind::IsADirectory, std::io::ErrorKind::IsADirectory),
        (ErrorKind::DirectoryNotEmpty, std::io::ErrorKind::DirectoryNotEmpty),
        (ErrorKind::ReadOnlyFilesystem, std::io::ErrorKind::ReadOnlyFilesystem),
        (ErrorKind::StaleNetworkFileHandle, std::io::ErrorKind::StaleNetworkFileHandle),
        (ErrorKind::InvalidInput, std::io::ErrorKind::InvalidInput),
        (ErrorKind::InvalidData, std::io::ErrorKind::InvalidData),
        (ErrorKind::TimedOut, std::io::ErrorKind::TimedOut),
        (ErrorKind::WriteZero, std::io::ErrorKind::WriteZero),
        (ErrorKind::StorageFull, std::io::ErrorKind::StorageFull),
        (ErrorKind::NotSeekable, std::io::ErrorKind::NotSeekable),
        (ErrorKind::QuotaExceeded, std::io::ErrorKind::QuotaExceeded),
        (ErrorKind::FileTooLarge, std::io::ErrorKind::FileTooLarge),
        (ErrorKind::ResourceBusy, std::io::ErrorKind::ResourceBusy),
        (ErrorKind::ExecutableFileBusy, std::io::ErrorKind::ExecutableFileBusy),
        (ErrorKind::Deadlock, std::io::ErrorKind::Deadlock),
        (ErrorKind::CrossesDevices, std::io::ErrorKind::CrossesDevices),
        (ErrorKind::TooManyLinks, std::io::ErrorKind::TooManyLinks),
        (ErrorKind::InvalidFilename, std::io::ErrorKind::InvalidFilename),
        (ErrorKind::ArgumentListTooLong, std::io::ErrorKind::ArgumentListTooLong),
        (ErrorKind::Interrupted, std::io::ErrorKind::Interrupted),
        (ErrorKind::Unsupported, std::io::ErrorKind::Unsupported),
        (ErrorKind::UnexpectedEof, std::io::ErrorKind::UnexpectedEof),
        (ErrorKind::OutOfMemory, std::io::ErrorKind::OutOfMemory),
        (ErrorKind::Other, std::io::ErrorKind::Other),
    ];
    for (kind, std_kind) in kinds {
        assert_eq!(kind.name(), format!("{std_kind:?}"));
        assert_eq!(kind.description(), std_kind.to_string());
    }
}

#[test]
fn kinds_without_a_stable_name_are_described_too() {
    assert_eq!(
        ErrorKind::FilesystemLoop.description(),
        "filesystem loop or indirection limit (e.g. symlink loop)"
    );
    assert_eq!(ErrorKind::InProgress.description(), "in progress");
    assert_eq!(ErrorKind::Uncategorized.description(), "uncategorized error");
    assert_eq!(ErrorKind::Uncategorized.name(), "Uncategorized");
}
