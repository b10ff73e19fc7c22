use vstd::prelude::*;

verus! {

/// The four distinguishable ways a fixture load can fail.
#[derive(Clone, Copy, Debug, PartialEq, Eq, Structural)]
pub enum FixtureError {
    /// The anchor name appears nowhere in the working directory's ancestry.
    RootNotFound,
    /// No entry under the anchor has a trailing window holding the fragment's
    /// components.
    FragmentUnresolved,
    /// The resolved file could not be opened or read.
    IoFailure,
    /// The file's JSON does not match the tagged fixture schema.
    DeserializationFailure,
}

} // verus!
