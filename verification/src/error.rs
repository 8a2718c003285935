//! The errors of a playlist's operations.
use vstd::prelude::*;

verus! {

/// A failure reported by SQLite through `rusqlite`.
#[verifier::external_type_specification]
#[verifier::external_body]
pub struct ExSqliteError(rusqlite::Error);

/// A failure of an HTTP request made with `reqwest`.
#[verifier::external_type_specification]
#[verifier::external_body]
pub struct ExHttpError(reqwest::Error);

/// A failure of the file system or of a child process.
#[verifier::external_type_specification]
#[verifier::external_body]
pub struct ExIoError(std::io::Error);

/// A failure to read or write a track's tags with `lofty`.
#[verifier::external_type_specification]
#[verifier::external_body]
pub struct ExTagError(lofty::error::LoftyError);

/// Everything that can go wrong while opening, syncing or exporting a playlist.
#[derive(Debug)]
pub enum PlaylistError {
    /// The database could not be read or written.
    Sqlite(rusqlite::Error),
    /// A download failed.
    Reqwest(reqwest::Error),
    /// The file system refused an operation.
    Io(std::io::Error),
    /// A track's tags could not be read or written.
    Lofty(lofty::error::LoftyError),
    /// The database belongs to another application (its `application_id` is
    /// neither 0 nor ours); holds the error of closing it, if closing failed.
    NotOurMusicDatabase(Option<rusqlite::Error>),
    /// The playlist has no upstream playlist to sync from.
    NoUpstreamPlaylist,
    /// A track's tags have no primary tag and none could be created.
    NoPrimaryTag,
    /// The playlist's path has no parent folder to hold its tracks and thumbnails.
    PlaylistHasNoParentFolder,
    /// The upstream service did not list the playlist's entries.
    UpstreamGettingPlaylistEntries(String),
    /// The upstream service did not give a track's stream.
    UpstreamGettingStreamInfo(String),
    /// A downloaded `.webm` track could not be remuxed into `.m4a`.
    FailedToRemuxAsM4a(std::io::Error),
}

} // verus!
