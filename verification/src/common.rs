//! Items shared by all the flashers: destinations and the buffer size.

use vstd::prelude::*;

verus! {

/// Size of the chunks streamed from an image source to a destination.
pub const BUF_SIZE: usize = 32 * 1024;

/// Failures shared by all the flashers.
#[derive(Debug, Clone, PartialEq, Eq)]
pub enum Error {
    /// The destination device could not be opened for writing.
    FailedToOpenDestination(String),
}

impl Error {
    /// The human-readable description of this failure.
    pub open spec fn message_spec(self) -> Seq<char> {
        match self {
            Error::FailedToOpenDestination(_) => "Failed to Open Destination"@,
        }
    }

    /// A human-readable description of this failure.
    pub fn message(&self) -> (r: String)
        ensures
            r@ == self.message_spec(),
    {
        match self {
            Error::FailedToOpenDestination(_) => "Failed to Open Destination".to_owned(),
        }
    }
}

/// A candidate write target: a removable block device or a serial port.
///
/// Identity is the pair `(name, path)`; `size` is known only for block
/// devices and is ignored when comparing destinations.
#[derive(Debug, Clone)]
pub struct Destination {
    pub name: String,
    pub path: String,
    pub size: Option<u64>,
}

impl Destination {
    /// Two destinations denote the same device when name and path agree.
    pub open spec fn same_identity(self, other: Destination) -> bool {
        self.name@ == other.name@ && self.path@ == other.path@
    }

    /// A serial-port destination: the port name doubles as its path.
    pub fn port(name: String) -> (r: Self)
        ensures
            r.name@ == name@,
            r.path@ == name@,
            r.size is None,
    {
        let path = name.clone();
        Self { name, path, size: None }
    }

    /// A block-device destination with a known byte size.
    pub fn sd_card(name: String, size: u64, path: String) -> (r: Self)
        ensures
            r.name@ == name@,
            r.path@ == path@,
            r.size == Some(size),
    {
        Self { name, path, size: Some(size) }
    }

    /// A destination entered directly as a device path.
    pub fn from_path(path: String) -> (r: Self)
        ensures
            r.name@ == path@,
            r.path@ == path@,
            r.size is None,
    {
        let name = path.clone();
        Self { name, path, size: None }
    }
}

/// The image chosen for a flash operation: a local file, or a remote
/// resource pinned to an expected SHA-256 digest, with an optional inner
/// archive member to extract.
#[derive(Debug, Clone)]
pub enum SelectedImage {
    Local(String),
    Remote {
        name: String,
        url: String,
        extract_sha256: [u8; 32],
        extract_path: Option<String>,
    },
}

impl SelectedImage {
    /// An image stored in a local file.
    pub fn local(name: String) -> (r: Self)
        ensures
            r == SelectedImage::Local(name),
    {
        Self::Local(name)
    }

    /// A remote image pinned to the digest its stream must hash to.
    pub fn remote(
        name: String,
        url: String,
        download_sha256: [u8; 32],
        extract_path: Option<String>,
    ) -> (r: Self)
        ensures
            r == (SelectedImage::Remote {
                name,
                url,
                extract_sha256: download_sha256,
                extract_path,
            }),
    {
        Self::Remote { name, url, extract_sha256: download_sha256, extract_path }
    }
}

} // verus!
