use playlist_sync::error::PlaylistError;
use playlist_sync::layout::{
    audio_destination, audio_folder, content_type_text, m3a_destination, playlist_folder, playlist_name,
    thumbnail_destination, thumbnail_folder,
};

#[test]
fn folder_of_database() {
    assert_eq!(playlist_folder("/music/mix.db").unwrap(), "/music");
    assert_eq!(playlist_folder("mix.db").unwrap(), "");
}

#[test]
fn database_without_parent_folder() {
    assert!(matches!(playlist_folder("/"), Err(PlaylistError::PlaylistHasNoParentFolder)));
    assert!(matches!(playlist_folder(""), Err(PlaylistError::PlaylistHasNoParentFolder)));
}

#[test]
fn media_folders() {
    assert_eq!(audio_folder("/music"), "/music/audio");
    assert_eq!(thumbnail_folder("/music"), "/music/thumbnail");
}

#[test]
fn audio_file_of_video() {
    assert_eq!(audio_destination("/music", "dQw4w9WgXcQ", "webm"), "/music/audio/dQw4w9WgXcQ.webm");
    assert_eq!(audio_destination("/music", "abc", "m4a"), "/music/audio/abc.m4a");
}

#[test]
fn thumbnail_file_follows_content_type() {
    assert_eq!(
        thumbnail_destination("/music", "abc", Some("image/jpeg")).as_deref(),
        Some("/music/thumbnail/abc.jpg")
    );
    assert_eq!(
        thumbnail_destination("/music", "abc", Some("image/png")).as_deref(),
        Some("/music/thumbnail/abc.png")
    );
    assert_eq!(
        thumbnail_destination("/music", "abc", Some("image/webp; charset=binary")).as_deref(),
        Some("/music/thumbnail/abc.webp")
    );
}

#[test]
fn thumbnail_without_usable_content_type() {
    assert_eq!(thumbnail_destination("/music", "abc", None), None);
    assert_eq!(thumbnail_destination("/music", "abc", Some("notareal/mimetype")), None);
    assert_eq!(thumbnail_destination("/music", "abc", Some("invalid-mimetype")), None);
}

#[test]
fn export_file_of_playlist() {
    assert_eq!(m3a_destination("/music", "mix"), "/music/mix.m3a");
}

#[test]
fn name_of_playlist() {
    assert_eq!(playlist_name("/music/mix.db").as_deref(), Some("mix"));
    assert_eq!(playlist_name("/music/road trip.sqlite").as_deref(), Some("road trip"));
    assert_eq!(playlist_name("mix").as_deref(), Some("mix"));
    assert_eq!(playlist_name("/"), None);
}

#[test]
fn header_text_of_visible_ascii() {
    assert_eq!(content_type_text(b"image/jpeg").as_deref(), Some("image/jpeg"));
    assert_eq!(content_type_text(b"text/html;\tcharset=UTF-8").as_deref(), Some("text/html;\tcharset=UTF-8"));
    assert_eq!(content_type_text(b"").as_deref(), Some(""));
}

#[test]
fn header_text_refuses_other_bytes() {
    assert_eq!(content_type_text(b"image/\x7fpng"), None);
    assert_eq!(content_type_text(b"image/\npng"), None);
    assert_eq!(content_type_text("image/pn\u{e9}".as_bytes()), None);
}
