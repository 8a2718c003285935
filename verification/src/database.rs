//! Ownership of a playlist's SQLite database.
//!
//! SQLite keeps a 32-bit `application_id` in each database header
//! (<https://sqlite.org/pragma.html#pragma_application_id>). A new database
//! holds 0; a playlist marks its database with [`SQLITE_APPLICATION_ID`] and
//! refuses to touch one that another application has marked.
use vstd::prelude::*;

verus! {

/// The `application_id` that marks a database as a playlist's.
pub const SQLITE_APPLICATION_ID: u32 = 0x7D8A4B83u32;

/// The `application_id` of a database that no application has marked.
pub const UNCLAIMED_APPLICATION_ID: u32 = 0u32;

/// The schema version that a newly claimed database is given.
pub const INITIAL_USER_VERSION: u32 = 0u32;

/// What opening a database finds it to be.
#[derive(Clone, Copy, Debug, PartialEq, Eq, Structural)]
pub enum Ownership {
    /// Unmarked: claim it (set the `application_id` and `user_version`) and
    /// create the schema.
    Unclaimed,
    /// Already a playlist's: there are no migrations, use it as it is.
    Ours,
    /// Marked by another application: close it and fail with
    /// `NotOurMusicDatabase`, so that its data is left alone.
    Foreign,
}

/// Classifies the database by the `application_id` read from its header.
pub open spec fn spec_ownership(application_id: u32) -> Ownership {
    if application_id == UNCLAIMED_APPLICATION_ID {
        Ownership::Unclaimed
    } else if application_id == SQLITE_APPLICATION_ID {
        Ownership::Ours
    } else {
        Ownership::Foreign
    }
}

/// Decides what to do with a database whose header holds `application_id`.
pub fn ownership(application_id: u32) -> (res: Ownership)
    ensures
        res == spec_ownership(application_id),
{
    if application_id == UNCLAIMED_APPLICATION_ID {
        Ownership::Unclaimed
    } else if application_id == SQLITE_APPLICATION_ID {
        Ownership::Ours
    } else {
        Ownership::Foreign
    }
}

/// The `application_id` that a database holds after opening: claiming an
/// unclaimed database writes ours, the others keep theirs.
pub open spec fn spec_id_after_open(application_id: u32) -> u32 {
    match spec_ownership(application_id) {
        Ownership::Unclaimed => SQLITE_APPLICATION_ID,
        _ => application_id,
    }
}

/// Opening is settled after one step: a database that was opened without
/// being refused is ours from then on, so every later opening uses it as it
/// is and never creates the schema again; a refused database keeps its mark
/// and is refused again.
pub proof fn lemma_open_is_settled(application_id: u32)
    ensures
        spec_ownership(application_id) != Ownership::Foreign
            ==> spec_ownership(spec_id_after_open(application_id)) == Ownership::Ours,
        spec_ownership(application_id) == Ownership::Foreign
            ==> spec_ownership(spec_id_after_open(application_id)) == Ownership::Foreign,
{
}

} // verus!
