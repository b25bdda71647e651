use vstd::prelude::*;

verus! {

/// Errors of the server's logic.
#[derive(Clone, Copy, Debug)]
pub enum Error {
    /// A request named something that does not exist or is not allowed;
    /// the text names the operation that refused it.
    InvalidInput(&'static str),
    /// Authenticated encryption failed: a message too long to seal, or a
    /// ciphertext whose tag does not match.
    AEADError,
}

} // verus!
