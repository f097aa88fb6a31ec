//! What can go wrong, and how a transfer ends.

use vstd::prelude::*;

verus! {

/// The kinds of failure that the pipeline tells apart.
#[derive(Debug, Clone, Copy, PartialEq, Eq, Structural)]
pub enum ErrorKind {
    /// The source path does not name anything that can be archived.
    InvalidInput,
    /// Reading the source or writing the archive failed.
    ArchiveIo,
    /// The transport connection or its handshake failed.
    Connect,
    /// The server did not confirm the credentials.
    Auth,
    /// Creating or inspecting a remote path failed for a reason other than absence.
    RemoteFs,
    /// Reading the local archive or writing the remote file failed mid-stream.
    TransferIo,
    /// A digest could not be computed.
    Hash,
}

impl ErrorKind {
    /// The stage name shown to the user for this kind of failure.
    pub open spec fn spec_describe(self) -> Seq<char> {
        match self {
            ErrorKind::InvalidInput => "invalid input"@,
            ErrorKind::ArchiveIo => "archive I/O error"@,
            ErrorKind::Connect => "connection error"@,
            ErrorKind::Auth => "authentication error"@,
            ErrorKind::RemoteFs => "remote file system error"@,
            ErrorKind::TransferIo => "transfer I/O error"@,
            ErrorKind::Hash => "hash error"@,
        }
    }

    pub fn describe(&self) -> (text: &'static str)
        ensures
            text@ == self.spec_describe(),
    {
        match self {
            ErrorKind::InvalidInput => "invalid input",
            ErrorKind::ArchiveIo => "archive I/O error",
            ErrorKind::Connect => "connection error",
            ErrorKind::Auth => "authentication error",
            ErrorKind::RemoteFs => "remote file system error",
            ErrorKind::TransferIo => "transfer I/O error",
            ErrorKind::Hash => "hash error",
        }
    }

    /// Whether a transfer attempt can end with this kind.
    pub open spec fn is_transfer_kind(self) -> bool {
        self == ErrorKind::Connect || self == ErrorKind::Auth || self == ErrorKind::RemoteFs
            || self == ErrorKind::TransferIo
    }
}

/// How a transfer ended: with success, or with the kind of the last failure
/// and the number of attempts that were made.
#[derive(Debug, Clone, Copy, PartialEq, Eq, Structural)]
pub enum TransferOutcome {
    Success,
    Failed(ErrorKind, u32),
}

impl TransferOutcome {
    pub open spec fn spec_is_success(&self) -> bool {
        *self == TransferOutcome::Success
    }

    #[verifier::when_used_as_spec(spec_is_success)]
    pub fn is_success(&self) -> (ok: bool)
        ensures
            ok == self.spec_is_success(),
    {
        match self {
            TransferOutcome::Success => true,
            TransferOutcome::Failed(_, _) => false,
        }
    }
}

} // verus!
