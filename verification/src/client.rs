//! The provisioning tool the application drives: which binary to run.
//! Running it — spawning processes, streaming output, reading files — is
//! the surrounding application's concern; the library only carries the
//! configuration.

use vstd::prelude::*;

verus! {

/// The configured provisioning binary.
pub struct TfClient {
    binary: String,
}

impl View for TfClient {
    type V = Seq<char>;

    /// A client is abstracted by the characters of its binary name.
    closed spec fn view(&self) -> Seq<char> {
        self.binary@
    }
}

impl TfClient {
    /// A client for the given binary name or path.
    pub fn new(binary: String) -> (r: Self)
        ensures
            r@ == binary@,
    {
        TfClient { binary }
    }

    /// The binary this client runs.
    pub fn binary(&self) -> (r: &String)
        ensures
            r@ == self@,
    {
        &self.binary
    }
}

impl Clone for TfClient {
    /// A clone names the same binary.
    fn clone(&self) -> (r: Self)
        ensures
            r@ == self@,
    {
        TfClient { binary: self.binary.clone() }
    }
}

} // verus!
