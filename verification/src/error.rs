//! The error type of one flash operation: every low-level failure is
//! wrapped into the operation's single terminal failure, and cancellation
//! is a distinct terminal outcome of its own.

use vstd::prelude::*;

verus! {

/// The terminal failure of a flash operation.
#[derive(Debug, Clone, PartialEq, Eq)]
pub enum Error {
    /// The serial-bootloader engine failed.
    BeagleConnectFreedomError(crate::bcf::Error),
    /// A read, write or seek failed.
    IoError(String),
    /// The block-device engine failed.
    SdCardError(crate::sd::Error),
    /// A failure shared by all the flashers.
    CommanError(crate::common::Error),
    /// The download layer failed.
    DownloadError(crate::download::Error),
    /// The operation was cancelled at a cooperative checkpoint; the
    /// destination is left partially written and unverified.
    Cancelled,
}

impl Error {
    /// The human-readable description of this failure.
    pub open spec fn message_spec(self) -> Seq<char> {
        match self {
            Error::BeagleConnectFreedomError(e) => e.message_spec(),
            Error::IoError(_) => "Io Error"@,
            Error::SdCardError(e) => e.message_spec(),
            Error::CommanError(e) => e.message_spec(),
            Error::DownloadError(e) => e.message_spec(),
            Error::Cancelled => "cancelled by user"@,
        }
    }

    /// A human-readable description of this failure, distinguishing the
    /// failure classes a caller must tell apart.
    pub fn message(&self) -> (r: String)
        ensures
            r@ == self.message_spec(),
    {
        match self {
            Error::BeagleConnectFreedomError(e) => e.message(),
            Error::IoError(_) => "Io Error".to_owned(),
            Error::SdCardError(e) => e.message(),
            Error::CommanError(e) => e.message(),
            Error::DownloadError(e) => e.message(),
            Error::Cancelled => "cancelled by user".to_owned(),
        }
    }
}

} // verus!
