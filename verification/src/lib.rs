//! Verified core of a tool that keeps a local copy of a YouTube Music
//! playlist: the on-disk layout of a playlist folder, the ownership check of
//! its SQLite database, the plan that a sync follows, the rows it stores, the
//! `.m3a` text it writes, and the colour theme of its interface.
//!
//! The network, the database and the file system are driven by the program
//! around this library; everything here decides, from plain values, what that
//! program does next.
pub mod database;
pub mod error;
pub mod layout;
pub mod m3a;
pub mod paths;
pub mod sync;
pub mod theme;
