//! Which database an invocation works on.

use vstd::prelude::*;

verus! {

/// The two places where a task database can live.
#[derive(Clone, Copy, Debug, PartialEq, Eq, Structural)]
pub enum Location {
    /// Below the current directory.
    Local,
    /// Below the user's home directory.
    Global,
}

/// A misuse of the command line.
#[derive(Clone, Copy, Debug, PartialEq, Eq, Structural)]
pub enum UsageError {
    /// The local and the global database were both asked for.
    BothLocations,
}

/// The database to use: the one asked for; with nothing asked for, the local
/// one if it exists, else the global one. Asking for both is an error.
pub open spec fn chosen_location(local: bool, global: bool, local_exists: bool) -> Result<
    Location,
    UsageError,
> {
    if local && global {
        Err(UsageError::BothLocations)
    } else if local {
        Ok(Location::Local)
    } else if global {
        Ok(Location::Global)
    } else if local_exists {
        Ok(Location::Local)
    } else {
        Ok(Location::Global)
    }
}

/// Exec form of [`chosen_location`].
pub fn resolve_location(local: bool, global: bool, local_exists: bool) -> (choice: Result<
    Location,
    UsageError,
>)
    ensures
        choice == chosen_location(local, global, local_exists),
{
    if local && global {
        Err(UsageError::BothLocations)
    } else if local || (!global && local_exists) {
        Ok(Location::Local)
    } else {
        Ok(Location::Global)
    }
}

} // verus!
