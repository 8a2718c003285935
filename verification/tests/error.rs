use playlist_sync::error::PlaylistError;

#[test]
fn errors_carry_their_causes() {
    let e = PlaylistError::UpstreamGettingPlaylistEntries("timeout".to_string());
    assert!(matches!(e, PlaylistError::UpstreamGettingPlaylistEntries(ref s) if s == "timeout"));
    let e = PlaylistError::NotOurMusicDatabase(None);
    assert!(matches!(e, PlaylistError::NotOurMusicDatabase(None)));
    let e = PlaylistError::FailedToRemuxAsM4a(std::io::Error::other("ffmpeg"));
    assert!(format!("{:?}", e).contains("ffmpeg"));
}
