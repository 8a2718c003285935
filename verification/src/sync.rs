//! Syncing a playlist from its upstream YouTube Music playlist.
//!
//! A sync lists the upstream entries in playlist order. An entry whose video
//! is already stored only gets its position updated (the upstream order may
//! have changed); any other entry is downloaded (audio, then thumbnail) and
//! stored at its position, with paths relative to the playlist's folder so
//! that the folder can be moved.
use vstd::prelude::*;
use crate::error::PlaylistError;
use crate::paths;
use crate::paths::diff_paths;
use crate::m3a;

verus! {

/// An entry of the upstream playlist.
#[derive(Debug)]
pub struct UpstreamTrack {
    /// The YouTube video id.
    pub video_id: String,
    pub title: String,
    /// The URL of the cover image, if the entry has one.
    pub cover: Option<String>,
}

/// What a sync does for one upstream entry.
#[derive(Debug)]
pub enum SyncAction {
    /// The video is already stored: set its position.
    UpdatePosition { video_id: String, position: usize },
    /// The video is new: download it and its cover, then store it at `position`.
    Fetch { video_id: String, title: String, cover: Option<String>, position: usize },
}

/// A row of the `tracks` table, as a sync stores it.
#[derive(Debug)]
pub struct TrackRow {
    pub title: String,
    /// Relative to the playlist's folder.
    pub audio_path: String,
    /// Relative to the playlist's folder.
    pub thumbnail_path: Option<String>,
    pub position: usize,
    pub youtube_video_id: String,
}

/// Whether the video `video_id` is among the stored ones.
pub open spec fn is_known(stored: Seq<String>, video_id: Seq<char>) -> bool {
    exists|j: int| 0 <= j < stored.len() && (#[trigger] stored[j])@ == video_id
}

/// The action for the upstream entry `track` found at `position`.
pub open spec fn spec_action(track: UpstreamTrack, position: int, stored: Seq<String>) -> SyncAction {
    if is_known(stored, track.video_id@) {
        SyncAction::UpdatePosition { video_id: track.video_id, position: position as usize }
    } else {
        SyncAction::Fetch {
            video_id: track.video_id,
            title: track.title,
            cover: track.cover,
            position: position as usize,
        }
    }
}

/// The stored ids once a sync of `tracks` has stored every one of them.
pub open spec fn ids_after_sync(stored: Seq<String>, tracks: Seq<UpstreamTrack>) -> Seq<String> {
    stored + tracks.map_values(|t: UpstreamTrack| t.video_id)
}

/// What the playlist's metadata records as its upstream playlist.
#[derive(Debug)]
pub enum RecordedUpstream {
    /// The metadata has no row: no upstream was ever set.
    NoRecord,
    /// The row is there but holds no playlist id.
    Unset,
    /// The id of the upstream playlist.
    Playlist(String),
}

/// The id of the upstream playlist recorded in the playlist's metadata, or
/// `NoUpstreamPlaylist` when none is recorded (no metadata row, or no id in it).
pub fn upstream_playlist_id(recorded: RecordedUpstream) -> (res: Result<String, PlaylistError>)
    ensures
        match recorded {
            RecordedUpstream::Playlist(id) => res matches Ok(r) && r == id,
            _ => res matches Err(PlaylistError::NoUpstreamPlaylist),
        },
{
    match recorded {
        RecordedUpstream::Playlist(id) => Ok(id),
        _ => Err(PlaylistError::NoUpstreamPlaylist),
    }
}

/// Whether `video_id` is among `stored`.
pub fn contains_video(stored: &Vec<String>, video_id: &String) -> (res: bool)
    ensures
        res == is_known(stored@, video_id@),
{
    let n = stored.len();
    for j in 0..n
        invariant
            n == stored@.len(),
            forall|k: int| 0 <= k < j ==> (#[trigger] stored@[k])@ != video_id@,
    {
        if stored[j] == *video_id {
            assert(stored@[j as int]@ == video_id@);
            return true;
        }
    }
    false
}

fn clone_option(s: &Option<String>) -> (res: Option<String>)
    ensures
        res == *s,
{
    match s {
        Some(t) => Some(t.clone()),
        None => None,
    }
}

/// The actions of a sync: one per upstream entry, in playlist order, each at
/// the entry's index; stored videos are only repositioned, the others fetched.
pub fn plan_sync(tracks: &Vec<UpstreamTrack>, stored: &Vec<String>) -> (plan: Vec<SyncAction>)
    ensures
        plan@.len() == tracks@.len(),
        forall|i: int| 0 <= i < tracks@.len() ==> #[trigger] plan@[i] == spec_action(tracks@[i], i, stored@),
{
    let mut plan: Vec<SyncAction> = Vec::new();
    let n = tracks.len();
    for i in 0..n
        invariant
            n == tracks@.len(),
            plan@.len() == i,
            forall|k: int| 0 <= k < i ==> #[trigger] plan@[k] == spec_action(tracks@[k], k, stored@),
    {
        let track = &tracks[i];
        let action = if contains_video(stored, &track.video_id) {
            SyncAction::UpdatePosition { video_id: track.video_id.clone(), position: i }
        } else {
            SyncAction::Fetch {
                video_id: track.video_id.clone(),
                title: track.title.clone(),
                cover: clone_option(&track.cover),
                position: i,
            }
        };
        plan.push(action);
    }
    plan
}

/// Once every entry of a sync is stored, syncing the same entries again
/// downloads nothing: every action only updates a position.
pub proof fn lemma_resync_fetches_nothing(tracks: Seq<UpstreamTrack>, stored: Seq<String>)
    ensures
        forall|i: int| 0 <= i < tracks.len() ==>
            (#[trigger] spec_action(tracks[i], i, ids_after_sync(stored, tracks))) is UpdatePosition,
{
    assert forall|i: int| 0 <= i < tracks.len() implies
        (#[trigger] spec_action(tracks[i], i, ids_after_sync(stored, tracks))) is UpdatePosition by {
        let after = ids_after_sync(stored, tracks);
        assert(after[stored.len() + i] == tracks[i].video_id);
    }
}

/// Whether the audio has to be downloaded, given what checking for its file
/// found: only a file that is known to exist is not fetched again.
pub fn should_download(already_downloaded: &Result<bool, std::io::Error>) -> (res: bool)
    ensures
        res == match already_downloaded {
            Ok(found) => !*found,
            Err(_) => true,
        },
{
    match already_downloaded {
        Ok(found) => !*found,
        Err(_) => true,
    }
}

/// The thumbnail that a fetch keeps: a failed thumbnail download does not fail
/// the sync, the track is then treated as having no thumbnail.
pub fn downloaded_thumbnail(outcome: Result<Option<String>, PlaylistError>) -> (res: Option<String>)
    ensures
        res == match outcome {
            Ok(path) => path,
            Err(_) => None,
        },
{
    match outcome {
        Ok(path) => path,
        Err(_) => None,
    }
}

/// The row that stores a fetched entry, its audio at `audio_path` and its
/// thumbnail at `thumbnail_path`, both made relative to `folder`.
/// `None` when there is no thumbnail or the audio path cannot be made
/// relative to `folder`: such an entry cannot be stored. A thumbnail path
/// that cannot be made relative is stored as none.
pub fn track_row(
    folder: &str,
    video_id: String,
    title: String,
    position: usize,
    audio_path: &str,
    thumbnail_path: Option<String>,
) -> (row: Option<TrackRow>)
    ensures
        row is Some <==> (thumbnail_path is Some && paths::path_relative_to(audio_path@, folder@) is Some),
        row matches Some(r) ==> {
            &&& r.title == title
            &&& r.youtube_video_id == video_id
            &&& r.position == position
            &&& paths::path_relative_to(audio_path@, folder@) == Some(r.audio_path@)
            &&& match r.thumbnail_path {
                Some(t) => paths::path_relative_to(thumbnail_path->0@, folder@) == Some(t@),
                None => paths::path_relative_to(thumbnail_path->0@, folder@) is None,
            }
        },
{
    let thumbnail = match thumbnail_path {
        Some(t) => t,
        None => return None,
    };
    let relative_audio = match diff_paths(audio_path, folder) {
        Some(a) => a,
        None => return None,
    };
    let relative_thumbnail = diff_paths(thumbnail.as_str(), folder);
    Some(TrackRow {
        title,
        audio_path: relative_audio,
        thumbnail_path: relative_thumbnail,
        position,
        youtube_video_id: video_id,
    })
}

/// Where a sync stands; each stage names the work that the program does next.
#[derive(Debug)]
pub enum SyncStage {
    /// Read which upstream playlist the metadata records.
    ReadUpstream,
    /// Ask the upstream service for the entries of `playlist_id`.
    ListEntries { playlist_id: String },
    /// Note `tracks` as incoming and find which of them are already stored.
    FindStored { tracks: Vec<UpstreamTrack> },
    /// Carry out `plan[next]`.
    Apply { plan: Vec<SyncAction>, next: usize },
    /// The sync is complete.
    Done,
}

/// What the program reports once it has done a stage's work.
#[derive(Debug)]
pub enum SyncEvent {
    /// What the metadata records (after `ReadUpstream`).
    Recorded(RecordedUpstream),
    /// The upstream entries, in playlist order, or the service's error (after `ListEntries`).
    Listed(Result<Vec<UpstreamTrack>, String>),
    /// The ids of the listed videos that are already stored (after `FindStored`).
    Found(Vec<String>),
    /// The current action has been carried out (after `Apply`).
    Applied,
}

/// A stage, with its collections as sequences.
pub enum SyncStageView {
    ReadUpstream,
    ListEntries { playlist_id: Seq<char> },
    FindStored { tracks: Seq<UpstreamTrack> },
    Apply { plan: Seq<SyncAction>, next: int },
    Done,
}

/// An event, with its collections as sequences.
pub enum SyncEventView {
    Recorded(RecordedUpstream),
    Listed(Result<Seq<UpstreamTrack>, String>),
    Found(Seq<String>),
    Applied,
}

impl View for SyncStage {
    type V = SyncStageView;

    open spec fn view(&self) -> SyncStageView {
        match self {
            SyncStage::ReadUpstream => SyncStageView::ReadUpstream,
            SyncStage::ListEntries { playlist_id } => SyncStageView::ListEntries { playlist_id: playlist_id@ },
            SyncStage::FindStored { tracks } => SyncStageView::FindStored { tracks: tracks@ },
            SyncStage::Apply { plan, next } => SyncStageView::Apply { plan: plan@, next: *next as int },
            SyncStage::Done => SyncStageView::Done,
        }
    }
}

impl View for SyncEvent {
    type V = SyncEventView;

    open spec fn view(&self) -> SyncEventView {
        match self {
            SyncEvent::Recorded(r) => SyncEventView::Recorded(*r),
            SyncEvent::Listed(Ok(tracks)) => SyncEventView::Listed(Ok(tracks@)),
            SyncEvent::Listed(Err(message)) => SyncEventView::Listed(Err(*message)),
            SyncEvent::Found(stored) => SyncEventView::Found(stored@),
            SyncEvent::Applied => SyncEventView::Applied,
        }
    }
}

/// The plan of a sync, as a sequence: the action of each upstream entry.
pub open spec fn spec_plan(tracks: Seq<UpstreamTrack>, stored: Seq<String>) -> Seq<SyncAction> {
    Seq::new(tracks.len(), |i: int| spec_action(tracks[i], i, stored))
}

/// Whether `event` is what the work of `stage` reports.
pub open spec fn fits(stage: SyncStageView, event: SyncEventView) -> bool {
    match stage {
        SyncStageView::ReadUpstream => event is Recorded,
        SyncStageView::ListEntries { .. } => event is Listed,
        SyncStageView::FindStored { .. } => event is Found,
        SyncStageView::Apply { .. } => event is Applied,
        SyncStageView::Done => false,
    }
}

/// The stage that follows `stage` once its work reports `event`, or the error
/// that ends the sync.
pub open spec fn next_stage(stage: SyncStageView, event: SyncEventView) -> Result<SyncStageView, PlaylistError> {
    match stage {
        SyncStageView::ReadUpstream => match event {
            SyncEventView::Recorded(RecordedUpstream::Playlist(id)) => Ok(SyncStageView::ListEntries { playlist_id: id@ }),
            SyncEventView::Recorded(_) => Err(PlaylistError::NoUpstreamPlaylist),
            _ => Ok(stage),
        },
        SyncStageView::ListEntries { .. } => match event {
            SyncEventView::Listed(Ok(tracks)) => Ok(SyncStageView::FindStored { tracks }),
            SyncEventView::Listed(Err(message)) => Err(PlaylistError::UpstreamGettingPlaylistEntries(message)),
            _ => Ok(stage),
        },
        SyncStageView::FindStored { tracks } => match event {
            SyncEventView::Found(stored) => if tracks.len() == 0 {
                Ok(SyncStageView::Done)
            } else {
                Ok(SyncStageView::Apply { plan: spec_plan(tracks, stored), next: 0 })
            },
            _ => Ok(stage),
        },
        SyncStageView::Apply { plan, next } => match event {
            SyncEventView::Applied => if next + 1 < plan.len() {
                Ok(SyncStageView::Apply { plan, next: next + 1 })
            } else {
                Ok(SyncStageView::Done)
            },
            _ => Ok(stage),
        },
        SyncStageView::Done => Ok(stage),
    }
}

/// Moves a sync on once the work of `stage` has reported `event`.
pub fn sync_step(stage: SyncStage, event: SyncEvent) -> (res: Result<SyncStage, PlaylistError>)
    requires
        fits(stage@, event@),
    ensures
        match res {
            Ok(s) => next_stage(stage@, event@) == Ok::<SyncStageView, PlaylistError>(s@),
            Err(e) => next_stage(stage@, event@) == Err::<SyncStageView, PlaylistError>(e),
        },
{
    match stage {
        SyncStage::ReadUpstream => match event {
            SyncEvent::Recorded(recorded) => match upstream_playlist_id(recorded) {
                Ok(playlist_id) => Ok(SyncStage::ListEntries { playlist_id }),
                Err(e) => Err(e),
            },
            _ => Ok(SyncStage::ReadUpstream),
        },
        SyncStage::ListEntries { playlist_id } => match event {
            SyncEvent::Listed(Ok(tracks)) => Ok(SyncStage::FindStored { tracks }),
            SyncEvent::Listed(Err(message)) => Err(PlaylistError::UpstreamGettingPlaylistEntries(message)),
            _ => Ok(SyncStage::ListEntries { playlist_id }),
        },
        SyncStage::FindStored { tracks } => match event {
            SyncEvent::Found(stored) => {
                if tracks.len() == 0 {
                    Ok(SyncStage::Done)
                } else {
                    let plan = plan_sync(&tracks, &stored);
                    assert(plan@ =~= spec_plan(tracks@, stored@));
                    Ok(SyncStage::Apply { plan, next: 0 })
                }
            },
            _ => Ok(SyncStage::FindStored { tracks }),
        },
        SyncStage::Apply { plan, next } => match event {
            SyncEvent::Applied => {
                if plan.len() > 0 && next < plan.len() - 1 {
                    Ok(SyncStage::Apply { plan, next: next + 1 })
                } else {
                    Ok(SyncStage::Done)
                }
            },
            _ => Ok(SyncStage::Apply { plan, next }),
        },
        SyncStage::Done => Ok(SyncStage::Done),
    }
}

/// How far a stage is into a sync.
pub open spec fn stage_rank(stage: SyncStageView) -> int {
    match stage {
        SyncStageView::ReadUpstream => 0,
        SyncStageView::ListEntries { .. } => 1,
        SyncStageView::FindStored { .. } => 2,
        SyncStageView::Apply { .. } => 3,
        SyncStageView::Done => 4,
    }
}

/// The stages that a sync goes through from `stage` when its work reports
/// `events` in turn; it stops at an error or at an event that does not fit.
pub open spec fn sync_trace(stage: SyncStageView, events: Seq<SyncEventView>) -> Seq<SyncStageView>
    decreases events.len(),
{
    if events.len() == 0 || !fits(stage, events[0]) {
        seq![stage]
    } else {
        match next_stage(stage, events[0]) {
            Ok(following) => seq![stage] + sync_trace(following, events.drop_first()),
            Err(_) => seq![stage],
        }
    }
}

proof fn lemma_trace_ranks(stage: SyncStageView, events: Seq<SyncEventView>)
    ensures
        sync_trace(stage, events).len() >= 1,
        sync_trace(stage, events)[0] == stage,
        forall|k: int| 0 <= k < sync_trace(stage, events).len() ==> {
            &&& stage_rank(stage) + k < 3 ==> stage_rank(#[trigger] sync_trace(stage, events)[k]) == stage_rank(stage) + k
            &&& stage_rank(stage) + k >= 3 ==> stage_rank(sync_trace(stage, events)[k]) >= 3
        },
    decreases events.len(),
{
    let t = sync_trace(stage, events);
    if events.len() == 0 || !fits(stage, events[0]) {
    } else {
        match next_stage(stage, events[0]) {
            Ok(following) => {
                let rest = events.drop_first();
                lemma_trace_ranks(following, rest);
                let t2 = sync_trace(following, rest);
                assert(t == seq![stage] + t2);
                assert(stage_rank(stage) < 2 ==> stage_rank(following) == stage_rank(stage) + 1);
                assert(stage_rank(stage) >= 2 ==> stage_rank(following) >= 3);
                assert forall|k: int| 0 <= k < t.len() implies {
                    &&& stage_rank(stage) + k < 3 ==> stage_rank(#[trigger] t[k]) == stage_rank(stage) + k
                    &&& stage_rank(stage) + k >= 3 ==> stage_rank(t[k]) >= 3
                } by {
                    if k > 0 {
                        assert(t[k] == t2[k - 1]);
                    }
                }
            },
            Err(_) => {},
        }
    }
}

/// A sync asks the upstream service for a playlist's entries exactly once,
/// for the playlist that the metadata records, and only after reading that
/// record; it carries out no action (no download) before the entries have
/// been listed and the stored ones found.
pub proof fn lemma_one_listing_before_downloads(events: Seq<SyncEventView>)
    ensures
        forall|k: int| 0 <= k < sync_trace(SyncStageView::ReadUpstream, events).len()
            && (#[trigger] sync_trace(SyncStageView::ReadUpstream, events)[k]) is ListEntries ==> {
            &&& k == 1
            &&& events[0] matches SyncEventView::Recorded(RecordedUpstream::Playlist(id))
                && sync_trace(SyncStageView::ReadUpstream, events)[k]->playlist_id == id@
        },
        forall|k: int| 0 <= k < sync_trace(SyncStageView::ReadUpstream, events).len()
            && (#[trigger] sync_trace(SyncStageView::ReadUpstream, events)[k]) is Apply ==> {
            &&& k >= 3
            &&& sync_trace(SyncStageView::ReadUpstream, events)[1] is ListEntries
            &&& sync_trace(SyncStageView::ReadUpstream, events)[2] is FindStored
        },
{
    let start = SyncStageView::ReadUpstream;
    let t = sync_trace(start, events);
    lemma_trace_ranks(start, events);
    if t.len() > 1 {
        let following = next_stage(start, events[0])->Ok_0;
        assert(fits(start, events[0]));
        assert(next_stage(start, events[0]) is Ok);
        lemma_trace_ranks(following, events.drop_first());
        assert(t[1] == following);
    }
    assert forall|k: int| 0 <= k < t.len() && (#[trigger] t[k]) is ListEntries implies {
        &&& k == 1
        &&& events[0] matches SyncEventView::Recorded(RecordedUpstream::Playlist(id)) && t[k]->playlist_id == id@
    } by {
        assert(stage_rank(t[k]) == 1);
        assert(t[1] is ListEntries);
    }
    assert forall|k: int| 0 <= k < t.len() && (#[trigger] t[k]) is Apply implies {
        &&& k >= 3
        &&& t[1] is ListEntries
        &&& t[2] is FindStored
    } by {
        assert(stage_rank(t[k]) == 3);
        assert(stage_rank(t[1]) == 1);
        assert(stage_rank(t[2]) == 2);
    }
}

/// The entry that the export reads from a stored row.
pub open spec fn entry_of_row(row: TrackRow) -> m3a::PlaylistEntry {
    m3a::PlaylistEntry { audio_path: row.audio_path, title: row.title }
}

/// Whether `row` is the row that carrying out the fetch `action` stores.
pub open spec fn stores_fetch(row: TrackRow, action: SyncAction) -> bool {
    match action {
        SyncAction::Fetch { video_id, title, position, .. } => {
            &&& row.title == title
            &&& row.position == position
            &&& row.youtube_video_id == video_id
        },
        SyncAction::UpdatePosition { .. } => false,
    }
}

proof fn lemma_increasing_at_least(order: spec_fn(int) -> int, n: int, j: int)
    requires
        0 <= j < n,
        forall|a: int, b: int| 0 <= a < b < n ==> #[trigger] order(a) < #[trigger] order(b),
        forall|a: int| 0 <= a < n ==> 0 <= #[trigger] order(a) < n,
    ensures
        order(j) >= j,
    decreases j,
{
    if j > 0 {
        lemma_increasing_at_least(order, n, j - 1);
        assert(order(j - 1) < order(j));
    } else {
        assert(0 <= order(j));
    }
}

proof fn lemma_increasing_at_most(order: spec_fn(int) -> int, n: int, j: int)
    requires
        0 <= j < n,
        forall|a: int, b: int| 0 <= a < b < n ==> #[trigger] order(a) < #[trigger] order(b),
        forall|a: int| 0 <= a < n ==> 0 <= #[trigger] order(a) < n,
    ensures
        order(j) <= j,
    decreases n - j,
{
    if j < n - 1 {
        lemma_increasing_at_most(order, n, j + 1);
        assert(order(j) < order(j + 1));
    } else {
        assert(order(j) < n);
    }
}

/// After a sync into a playlist that stores nothing yet, the export lists the
/// upstream entries in upstream order. `rows` are the rows that the sync
/// stores, one per upstream entry; `read` is what the export reads back: the
/// same rows reordered (`read[j] == rows[order(j)]`) and sorted by position.
/// Then `read` is `rows` in upstream order, and the export holds, for each
/// upstream entry in turn, its title and its stored audio path.
pub proof fn lemma_export_follows_upstream_order(
    folder: Seq<char>,
    tracks: Seq<UpstreamTrack>,
    rows: Seq<TrackRow>,
    read: Seq<TrackRow>,
    order: spec_fn(int) -> int,
)
    requires
        tracks.len() <= usize::MAX,
        rows.len() == tracks.len(),
        forall|i: int| 0 <= i < rows.len() ==>
            stores_fetch(#[trigger] rows[i], spec_action(tracks[i], i, Seq::<String>::empty())),
        read.len() == rows.len(),
        forall|j: int| 0 <= j < read.len() ==> 0 <= #[trigger] order(j) < rows.len() && read[j] == rows[order(j)],
        forall|j: int, k: int| 0 <= j < k < read.len() ==> #[trigger] order(j) != #[trigger] order(k),
        forall|j: int, k: int| 0 <= j < k < read.len() ==> (#[trigger] read[j]).position <= (#[trigger] read[k]).position,
    ensures
        read == rows,
        m3a::spec_m3a(folder, read.map_values(|r: TrackRow| entry_of_row(r))) == m3a::spec_m3a(
            folder,
            Seq::new(tracks.len(), |i: int| m3a::PlaylistEntry { audio_path: rows[i].audio_path, title: tracks[i].title }),
        ),
{
    let n = rows.len() as int;
    assert forall|i: int| 0 <= i < n implies (#[trigger] rows[i]).position as int == i
        && rows[i].title == tracks[i].title by {
        assert(!is_known(Seq::<String>::empty(), tracks[i].video_id@));
        assert(stores_fetch(rows[i], spec_action(tracks[i], i, Seq::<String>::empty())));
    }
    assert forall|j: int| 0 <= j < n implies (#[trigger] read[j]).position as int == order(j) by {
        assert(read[j] == rows[order(j)]);
        assert(rows[order(j)].position as int == order(j));
    }
    assert forall|a: int, b: int| 0 <= a < b < n implies #[trigger] order(a) < #[trigger] order(b) by {
        assert(read[a].position <= read[b].position);
        assert(read[a].position as int == order(a));
        assert(read[b].position as int == order(b));
    }
    assert forall|j: int| 0 <= j < n implies #[trigger] order(j) == j by {
        lemma_increasing_at_least(order, n, j);
        lemma_increasing_at_most(order, n, j);
    }
    assert forall|j: int| 0 <= j < n implies #[trigger] read[j] == rows[j] by {
        assert(order(j) == j);
    }
    assert(read =~= rows);
    assert(read.map_values(|r: TrackRow| entry_of_row(r)) =~= Seq::new(
        tracks.len(),
        |i: int| m3a::PlaylistEntry { audio_path: rows[i].audio_path, title: tracks[i].title },
    ));
}

/// A video counts as stored exactly when one of the stored ids is its id,
/// character for character.
pub proof fn lemma_known_means_same_id(stored: Seq<String>, video_id: Seq<char>)
    ensures
        is_known(stored, video_id) <==> exists|j: int| 0 <= j < stored.len() && stored[j]@ =~= video_id,
        (forall|j: int| 0 <= j < stored.len() ==> stored[j]@ != video_id) ==> !is_known(stored, video_id),
{
    if is_known(stored, video_id) {
        let j = choose|j: int| 0 <= j < stored.len() && (#[trigger] stored[j])@ == video_id;
        assert(stored[j]@ =~= video_id);
    }
    if exists|j: int| 0 <= j < stored.len() && stored[j]@ =~= video_id {
        let j = choose|j: int| 0 <= j < stored.len() && stored[j]@ =~= video_id;
        assert(stored[j]@ == video_id);
    }
}

/// The action planned for an upstream entry carries that entry unchanged and
/// its index as position: a fetch takes the entry's own id, title and cover,
/// whatever is stored; a reposition takes its id. The entry is repositioned
/// exactly when some stored id equals its id, and fetched otherwise.
pub proof fn lemma_action_carries_its_entry(tracks: Seq<UpstreamTrack>, stored: Seq<String>, i: int)
    requires
        0 <= i < tracks.len(),
        tracks.len() <= usize::MAX,
    ensures
        (spec_plan(tracks, stored)[i] is UpdatePosition)
            <==> exists|j: int| 0 <= j < stored.len() && stored[j]@ =~= tracks[i].video_id@,
        spec_plan(tracks, stored).len() == tracks.len(),
        match spec_plan(tracks, stored)[i] {
            SyncAction::Fetch { video_id, title, cover, position } => {
                &&& video_id == tracks[i].video_id
                &&& title == tracks[i].title
                &&& cover == tracks[i].cover
                &&& position as int == i
            },
            SyncAction::UpdatePosition { video_id, position } => {
                &&& video_id == tracks[i].video_id
                &&& position as int == i
            },
        },
{
    lemma_known_means_same_id(stored, tracks[i].video_id@);
}

/// Carrying out an action moves on to the next one while there is one, and
/// ends the sync only after the last.
pub proof fn lemma_applied_moves_to_next_action(plan: Seq<SyncAction>, next: int)
    requires
        0 <= next < plan.len(),
    ensures
        next + 1 < plan.len() ==> next_stage((SyncStageView::Apply { plan, next }), SyncEventView::Applied)
            == Ok::<SyncStageView, PlaylistError>((SyncStageView::Apply { plan, next: next + 1 })),
        next + 1 == plan.len() ==> next_stage((SyncStageView::Apply { plan, next }), SyncEventView::Applied)
            == Ok::<SyncStageView, PlaylistError>(SyncStageView::Done),
{
}

/// From action `next` of a plan, as each action is reported carried out, the
/// sync visits every later action in order, one per event, and reaches
/// `Done` only after the last action: no action is skipped.
pub proof fn lemma_every_action_carried_out(plan: Seq<SyncAction>, next: int, events: Seq<SyncEventView>)
    requires
        0 <= next < plan.len(),
        forall|i: int| 0 <= i < events.len() ==> #[trigger] events[i] == SyncEventView::Applied,
    ensures
        sync_trace((SyncStageView::Apply { plan, next }), events).len() == 1 + (
            if events.len() < plan.len() - next { events.len() as int } else { plan.len() - next }),
        forall|k: int| 0 <= k < sync_trace((SyncStageView::Apply { plan, next }), events).len() && next + k < plan.len()
            ==> #[trigger] sync_trace((SyncStageView::Apply { plan, next }), events)[k] == (SyncStageView::Apply { plan, next: next + k }),
        forall|k: int| 0 <= k < sync_trace((SyncStageView::Apply { plan, next }), events).len() && next + k == plan.len()
            ==> #[trigger] sync_trace((SyncStageView::Apply { plan, next }), events)[k] == SyncStageView::Done,
    decreases events.len(),
{
    let start = SyncStageView::Apply { plan, next };
    let t = sync_trace(start, events);
    if events.len() == 0 {
    } else {
        assert(events[0] == SyncEventView::Applied);
        assert(fits(start, events[0]));
        let rest = events.drop_first();
        if next + 1 < plan.len() {
            let following = SyncStageView::Apply { plan, next: next + 1 };
            assert(next_stage(start, events[0]) == Ok::<SyncStageView, PlaylistError>(following));
            assert forall|i: int| 0 <= i < rest.len() implies #[trigger] rest[i] == SyncEventView::Applied by {
                assert(rest[i] == events[i + 1]);
            }
            lemma_every_action_carried_out(plan, next + 1, rest);
            let t2 = sync_trace(following, rest);
            assert(t == seq![start] + t2);
            assert forall|k: int| 0 <= k < t.len() && next + k < plan.len()
                implies #[trigger] t[k] == SyncStageView::Apply { plan, next: next + k } by {
                if k > 0 {
                    assert(t[k] == t2[k - 1]);
                }
            }
            assert forall|k: int| 0 <= k < t.len() && next + k == plan.len()
                implies #[trigger] t[k] == SyncStageView::Done by {
                assert(t[k] == t2[k - 1]);
            }
        } else {
            assert(next_stage(start, events[0]) == Ok::<SyncStageView, PlaylistError>(SyncStageView::Done));
            let t2 = sync_trace(SyncStageView::Done, rest);
            assert(t2 == seq![SyncStageView::Done]);
            assert(t == seq![start] + t2);
            assert(t[1] == SyncStageView::Done);
        }
    }
}

/// A whole sync of upstream entries `tracks`, `stored` of them already
/// stored: after reading the record of playlist `id`, listing `tracks` and
/// finding `stored`, each carried-out action is reported in turn. Then the
/// sync lists `id`, plans every entry, carries out the plan's actions at
/// indices 0, 1, ... in order, each exactly once, and is done after the last.
pub proof fn lemma_whole_sync_carries_out_every_action(
    id: String,
    tracks: Seq<UpstreamTrack>,
    stored: Seq<String>,
    applied: Seq<SyncEventView>,
)
    requires
        tracks.len() > 0,
        applied.len() >= tracks.len(),
        forall|i: int| 0 <= i < applied.len() ==> #[trigger] applied[i] == SyncEventView::Applied,
    ensures
        ({
            let events = seq![
                SyncEventView::Recorded(RecordedUpstream::Playlist(id)),
                SyncEventView::Listed(Ok(tracks)),
                SyncEventView::Found(stored),
            ] + applied;
            let t = sync_trace(SyncStageView::ReadUpstream, events);
            &&& t.len() == 4 + tracks.len()
            &&& t[1] == (SyncStageView::ListEntries { playlist_id: id@ })
            &&& forall|k: int| 0 <= k < tracks.len() ==>
                #[trigger] t[3 + k] == (SyncStageView::Apply { plan: spec_plan(tracks, stored), next: k })
            &&& t[3 + tracks.len() as int] == SyncStageView::Done
        }),
{
    let events = seq![
        SyncEventView::Recorded(RecordedUpstream::Playlist(id)),
        SyncEventView::Listed(Ok(tracks)),
        SyncEventView::Found(stored),
    ] + applied;
    let plan = spec_plan(tracks, stored);
    let s0 = SyncStageView::ReadUpstream;
    let s1 = SyncStageView::ListEntries { playlist_id: id@ };
    let s2 = SyncStageView::FindStored { tracks };
    let s3 = SyncStageView::Apply { plan, next: 0 };
    let e1 = events.drop_first();
    let e2 = e1.drop_first();
    let e3 = e2.drop_first();
    assert(e3 =~= applied);
    assert(events[0] == SyncEventView::Recorded(RecordedUpstream::Playlist(id)));
    assert(e1[0] == SyncEventView::Listed(Ok::<Seq<UpstreamTrack>, String>(tracks)));
    assert(e2[0] == SyncEventView::Found(stored));
    assert(next_stage(s0, events[0]) == Ok::<SyncStageView, PlaylistError>(s1));
    assert(next_stage(s1, e1[0]) == Ok::<SyncStageView, PlaylistError>(s2));
    assert(next_stage(s2, e2[0]) == Ok::<SyncStageView, PlaylistError>(s3));
    lemma_every_action_carried_out(plan, 0, applied);
    let t3 = sync_trace(s3, applied);
    let t2 = sync_trace(s2, e2);
    let t1 = sync_trace(s1, e1);
    let t = sync_trace(s0, events);
    assert(t2 == seq![s2] + t3);
    assert(t1 == seq![s1] + t2);
    assert(t == seq![s0] + t1);
    assert forall|k: int| 0 <= k < tracks.len() implies
        #[trigger] t[3 + k] == SyncStageView::Apply { plan, next: k } by {
        assert(t[3 + k] == t3[k]);
    }
    assert(t[3 + tracks.len() as int] == t3[tracks.len() as int]);
}

} // verus!
