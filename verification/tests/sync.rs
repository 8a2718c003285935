use playlist_sync::error::PlaylistError;
use playlist_sync::m3a::{render_m3a, PlaylistEntry};
use playlist_sync::sync::{
    contains_video, downloaded_thumbnail, plan_sync, should_download, sync_step, track_row,
    upstream_playlist_id, RecordedUpstream, SyncAction, SyncEvent, SyncStage,
    UpstreamTrack,
};

fn track(id: &str, title: &str, cover: Option<&str>) -> UpstreamTrack {
    UpstreamTrack {
        video_id: id.to_string(),
        title: title.to_string(),
        cover: cover.map(|c| c.to_string()),
    }
}

#[test]
fn recorded_upstream_is_used() {
    assert_eq!(upstream_playlist_id(RecordedUpstream::Playlist("PL123".to_string())).unwrap(), "PL123");
}

#[test]
fn missing_upstream_is_an_error() {
    assert!(matches!(upstream_playlist_id(RecordedUpstream::Unset), Err(PlaylistError::NoUpstreamPlaylist)));
    assert!(matches!(upstream_playlist_id(RecordedUpstream::NoRecord), Err(PlaylistError::NoUpstreamPlaylist)));
}

#[test]
fn stored_videos_are_found() {
    let stored = vec!["a".to_string(), "b".to_string()];
    assert!(contains_video(&stored, &"b".to_string()));
    assert!(!contains_video(&stored, &"c".to_string()));
    assert!(!contains_video(&Vec::new(), &"a".to_string()));
}

#[test]
fn plan_repositions_stored_and_fetches_new() {
    let tracks = vec![
        track("new1", "First", Some("https://img/1")),
        track("old", "Second", None),
        track("new2", "Third", None),
    ];
    let stored = vec!["old".to_string(), "gone".to_string()];
    let plan = plan_sync(&tracks, &stored);
    assert_eq!(plan.len(), 3);
    match &plan[0] {
        SyncAction::Fetch { video_id, title, cover, position } => {
            assert_eq!(video_id, "new1");
            assert_eq!(title, "First");
            assert_eq!(cover.as_deref(), Some("https://img/1"));
            assert_eq!(*position, 0);
        }
        other => panic!("unexpected {:?}", other),
    }
    match &plan[1] {
        SyncAction::UpdatePosition { video_id, position } => {
            assert_eq!(video_id, "old");
            assert_eq!(*position, 1);
        }
        other => panic!("unexpected {:?}", other),
    }
    match &plan[2] {
        SyncAction::Fetch { video_id, cover, position, .. } => {
            assert_eq!(video_id, "new2");
            assert_eq!(*cover, None);
            assert_eq!(*position, 2);
        }
        other => panic!("unexpected {:?}", other),
    }
}

#[test]
fn empty_upstream_plans_nothing() {
    assert!(plan_sync(&Vec::new(), &vec!["a".to_string()]).is_empty());
}

#[test]
fn resync_after_storing_everything_fetches_nothing() {
    let tracks = vec![track("x", "X", None), track("y", "Y", None), track("x", "X again", None)];
    let mut stored = vec!["z".to_string()];
    for action in plan_sync(&tracks, &stored) {
        if let SyncAction::Fetch { video_id, .. } = action {
            stored.push(video_id);
        }
    }
    let again = plan_sync(&tracks, &stored);
    assert_eq!(again.len(), 3);
    for (i, action) in again.iter().enumerate() {
        match action {
            SyncAction::UpdatePosition { position, .. } => assert_eq!(*position, i),
            other => panic!("fetched again: {:?}", other),
        }
    }
}

#[test]
fn download_unless_file_known_to_exist() {
    assert!(!should_download(&Ok(true)));
    assert!(should_download(&Ok(false)));
    assert!(should_download(&Err(std::io::Error::other("denied"))));
}

#[test]
fn row_paths_are_relative_to_folder() {
    let row = track_row(
        "/music",
        "abc".to_string(),
        "Song".to_string(),
        4,
        "/music/audio/abc.webm",
        Some("/music/thumbnail/abc.jpg".to_string()),
    )
    .unwrap();
    assert_eq!(row.title, "Song");
    assert_eq!(row.youtube_video_id, "abc");
    assert_eq!(row.position, 4);
    assert_eq!(row.audio_path, "audio/abc.webm");
    assert_eq!(row.thumbnail_path.as_deref(), Some("thumbnail/abc.jpg"));
}

#[test]
fn row_needs_a_thumbnail() {
    let row = track_row("/music", "abc".to_string(), "Song".to_string(), 0, "/music/audio/abc.webm", None);
    assert!(row.is_none());
}

#[test]
fn row_needs_a_relative_audio_path() {
    let row = track_row(
        "/music",
        "abc".to_string(),
        "Song".to_string(),
        0,
        "audio/abc.webm",
        Some("/music/thumbnail/abc.jpg".to_string()),
    );
    assert!(row.is_none());
}

#[test]
fn unrelatable_thumbnail_is_stored_as_none() {
    let row = track_row(
        "/music",
        "abc".to_string(),
        "Song".to_string(),
        1,
        "/music/audio/abc.webm",
        Some("thumbnail/abc.jpg".to_string()),
    )
    .unwrap();
    assert_eq!(row.audio_path, "audio/abc.webm");
    assert_eq!(row.thumbnail_path, None);
}

#[test]
fn failed_thumbnail_download_keeps_no_thumbnail() {
    assert_eq!(downloaded_thumbnail(Ok(Some("/m/thumbnail/a.jpg".to_string()))).as_deref(), Some("/m/thumbnail/a.jpg"));
    assert_eq!(downloaded_thumbnail(Ok(None)), None);
    assert_eq!(downloaded_thumbnail(Err(PlaylistError::NoPrimaryTag)), None);
}

#[test]
fn sync_without_upstream_stops_before_listing() {
    let first = sync_step(SyncStage::ReadUpstream, SyncEvent::Recorded(RecordedUpstream::NoRecord));
    assert!(matches!(first, Err(PlaylistError::NoUpstreamPlaylist)));
    let first = sync_step(SyncStage::ReadUpstream, SyncEvent::Recorded(RecordedUpstream::Unset));
    assert!(matches!(first, Err(PlaylistError::NoUpstreamPlaylist)));
}

#[test]
fn sync_walks_through_its_stages() {
    let stage = sync_step(SyncStage::ReadUpstream, SyncEvent::Recorded(RecordedUpstream::Playlist("PL9".to_string()))).unwrap();
    match &stage {
        SyncStage::ListEntries { playlist_id } => assert_eq!(playlist_id, "PL9"),
        other => panic!("unexpected {:?}", other),
    }
    let listed = vec![track("a", "A", None), track("b", "B", None)];
    let stage = sync_step(stage, SyncEvent::Listed(Ok(listed))).unwrap();
    assert!(matches!(stage, SyncStage::FindStored { ref tracks } if tracks.len() == 2));
    let stage = sync_step(stage, SyncEvent::Found(vec!["b".to_string()])).unwrap();
    match &stage {
        SyncStage::Apply { plan, next } => {
            assert_eq!(*next, 0);
            assert!(matches!(plan[0], SyncAction::Fetch { position: 0, .. }));
            assert!(matches!(plan[1], SyncAction::UpdatePosition { position: 1, .. }));
        }
        other => panic!("unexpected {:?}", other),
    }
    let stage = sync_step(stage, SyncEvent::Applied).unwrap();
    assert!(matches!(stage, SyncStage::Apply { next: 1, .. }));
    let stage = sync_step(stage, SyncEvent::Applied).unwrap();
    assert!(matches!(stage, SyncStage::Done));
}

#[test]
fn failed_listing_ends_the_sync() {
    let stage = SyncStage::ListEntries { playlist_id: "PL9".to_string() };
    let res = sync_step(stage, SyncEvent::Listed(Err("offline".to_string())));
    assert!(matches!(res, Err(PlaylistError::UpstreamGettingPlaylistEntries(ref m)) if m == "offline"));
}

#[test]
fn empty_upstream_finishes_at_once() {
    let stage = SyncStage::FindStored { tracks: Vec::new() };
    assert!(matches!(sync_step(stage, SyncEvent::Found(Vec::new())), Ok(SyncStage::Done)));
}

#[test]
fn export_after_fresh_sync_follows_upstream_order() {
    let tracks = vec![track("c", "Gamma", None), track("a", "Alpha", None), track("b", "Beta", None)];
    let mut rows = Vec::new();
    for action in plan_sync(&tracks, &Vec::new()) {
        match action {
            SyncAction::Fetch { video_id, title, position, .. } => {
                let audio = format!("/m/audio/{}.webm", video_id);
                let thumb = Some(format!("/m/thumbnail/{}.jpg", video_id));
                rows.push(track_row("/m", video_id, title, position, &audio, thumb).unwrap());
            }
            other => panic!("unexpected {:?}", other),
        }
    }
    // what the export reads: the stored rows, ordered by position
    rows.reverse();
    rows.sort_by_key(|r| r.position);
    let entries: Vec<PlaylistEntry> = rows
        .into_iter()
        .map(|r| PlaylistEntry { audio_path: r.audio_path, title: r.title })
        .collect();
    assert_eq!(
        render_m3a("/m", &entries),
        "#EXTM3U\n#EXTINF:0,Gamma\n/m/audio/c.webm\n#EXTINF:0,Alpha\n/m/audio/a.webm\n#EXTINF:0,Beta\n/m/audio/b.webm\n"
    );
}
