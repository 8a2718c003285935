use playlist_sync::database::{ownership, Ownership, SQLITE_APPLICATION_ID};

#[test]
fn unmarked_database_is_claimed() {
    assert_eq!(ownership(0), Ownership::Unclaimed);
}

#[test]
fn our_mark_is_recognised() {
    assert_eq!(SQLITE_APPLICATION_ID, 0x7D8A4B83);
    assert_eq!(ownership(0x7D8A4B83), Ownership::Ours);
}

#[test]
fn other_marks_are_refused() {
    assert_eq!(ownership(1), Ownership::Foreign);
    assert_eq!(ownership(0x7D8A4B82), Ownership::Foreign);
    assert_eq!(ownership(u32::MAX), Ownership::Foreign);
}

#[test]
fn claimed_database_is_ours_on_reopen() {
    // Claiming writes our id; the next open reads it back.
    assert_eq!(ownership(0), Ownership::Unclaimed);
    assert_eq!(ownership(SQLITE_APPLICATION_ID), Ownership::Ours);
}
