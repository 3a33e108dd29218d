use vstd::prelude::*;

verus! {

/// The two fatal ways a download ends. A transport error means the request
/// could not be sent or no response ever arrived; an I/O error means a
/// read of the body or a local file operation failed. A non-success HTTP
/// status is not an error: it only skips the download. Neither is retried.
#[derive(Clone, Copy, Debug, PartialEq, Eq, Structural)]
pub enum DownloadError {
    Transport,
    Io,
}

} // verus!
