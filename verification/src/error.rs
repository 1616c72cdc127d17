use vstd::prelude::*;

verus! {

/// The kinds of failure a single message or request can end in.
#[derive(Clone, Copy, Debug, PartialEq, Eq, Structural)]
pub enum Error {
    /// A binary payload or an account list did not have the expected layout.
    Codec,
    /// A chain value does not fit the signed storage type.
    Bounds,
    /// A request combined its arguments in a way that is not allowed.
    Argument,
    /// The store could not be reached or refused a statement.
    Storage,
    /// A row that the operation needs is missing.
    NotFound,
    /// A third-party service could not be reached or answered garbage.
    Upstream,
}

} // verus!
