//! The locator model: an absolute resource identifier, held as plain
//! values — scheme, optional authority, path segments, and, for the
//! local-file scheme, the OS path it designates.

use vstd::prelude::*;

verus! {

/// The schemes the codec dispatches on.  Every scheme outside this list
/// is `Other`, for which no cache path can be derived.
#[derive(Clone, Copy, PartialEq, Eq, Structural, Debug)]
pub enum Scheme {
    /// The in-memory / synthetic module scheme.
    Wasm,
    /// Plain web transfer.
    Http,
    /// Secure web transfer.
    Https,
    /// Inline data.
    Data,
    /// The local filesystem.
    File,
    /// Any scheme the codec does not know.
    Other,
}

/// The prefix of an OS absolute path.
pub enum PathPrefix {
    /// A POSIX-style root: the path begins at `/`.
    Slash,
    /// A drive-letter prefix; the component is the single drive letter.
    Disk(String),
    /// A UNC prefix: server name and share name.
    Unc(String, String),
}

/// An OS absolute file path: its prefix and the path components after it.
pub struct LocalPath {
    pub prefix: PathPrefix,
    pub segments: Vec<String>,
}

/// An absolute resource identifier, the cache key.  `host` and `port`
/// form the authority; `segments` are the locator's path segments; for
/// the local-file scheme, `local` holds the OS path the locator
/// designates, or `None` when it designates no valid local path.
pub struct Locator {
    pub scheme: Scheme,
    pub host: Option<String>,
    pub port: Option<u16>,
    pub segments: Vec<String>,
    pub local: Option<LocalPath>,
}

impl Locator {
    /// A locator of the in-memory scheme always carries a host.
    pub open spec fn wf(self) -> bool {
        self.scheme is Wasm ==> self.host is Some
    }
}

/// The path component naming the in-memory scheme.
pub open spec fn wasm_component() -> Seq<char> {
    seq!['w', 'a', 's', 'm']
}

/// The path component naming the local-file scheme.
pub open spec fn file_component() -> Seq<char> {
    seq!['f', 'i', 'l', 'e']
}

/// The literal marker component standing for a UNC prefix.
pub open spec fn unc_marker() -> Seq<char> {
    seq!['U', 'N', 'C']
}

/// The token joining a host to its port in an authority component, used
/// because a colon is not allowed in filenames on every supported OS.
pub open spec fn port_marker() -> Seq<char> {
    seq!['_', 'P', 'O', 'R', 'T']
}

} // verus!
