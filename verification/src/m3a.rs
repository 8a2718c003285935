//! The `.m3a` export of a playlist: an extended M3U list of its audio files.
//!
//! ```text
//! #EXTM3U
//! #EXTINF:0,<title>
//! <folder>/<audio path>
//! ...
//! ```
//! One pair of lines per track, in the order of their positions.
use vstd::prelude::*;
use crate::paths;
use crate::paths::join;

verus! {

/// A stored track as the export reads it.
#[derive(Debug)]
pub struct PlaylistEntry {
    /// Relative to the playlist's folder, as stored.
    pub audio_path: String,
    pub title: String,
}

/// The two lines of one track: its title, then its audio file's full path.
pub open spec fn spec_entry_text(folder: Seq<char>, entry: PlaylistEntry) -> Seq<char> {
    "#EXTINF:0,"@ + entry.title@ + "\n"@ + paths::path_joined(folder, entry.audio_path@) + "\n"@
}

/// The lines of all the tracks, in order.
pub open spec fn spec_entries_text(folder: Seq<char>, entries: Seq<PlaylistEntry>) -> Seq<char>
    decreases entries.len(),
{
    if entries.len() == 0 {
        Seq::empty()
    } else {
        spec_entries_text(folder, entries.drop_last()) + spec_entry_text(folder, entries.last())
    }
}

/// The whole export: the header line, then the lines of the tracks.
pub open spec fn spec_m3a(folder: Seq<char>, entries: Seq<PlaylistEntry>) -> Seq<char> {
    "#EXTM3U\n"@ + spec_entries_text(folder, entries)
}

/// The export of the tracks `entries` of the playlist in `folder`.
pub fn render_m3a(folder: &str, entries: &Vec<PlaylistEntry>) -> (text: String)
    ensures
        text@ == spec_m3a(folder@, entries@),
{
    let mut text = String::new();
    text.append("#EXTM3U\n");
    let n = entries.len();
    assert(entries@.take(0) =~= Seq::<PlaylistEntry>::empty());
    for i in 0..n
        invariant
            n == entries@.len(),
            text@ == spec_m3a(folder@, entries@.take(i as int)),
    {
        let entry = &entries[i];
        assert(entries@.take(i + 1).drop_last() =~= entries@.take(i as int));
        assert(entries@.take(i + 1).last() == entries@[i as int]);
        text.append("#EXTINF:0,");
        text.append(entry.title.as_str());
        text.append("\n");
        let path = join(folder, entry.audio_path.as_str());
        text.append(path.as_str());
        text.append("\n");
    }
    assert(entries@.take(n as int) =~= entries@);
    text
}

/// Exporting `a` followed by `b` gives the lines of `a` followed by the lines
/// of `b`: each track's lines depend on that track alone, and the order of the
/// tracks is kept.
pub proof fn lemma_entries_text_append(folder: Seq<char>, a: Seq<PlaylistEntry>, b: Seq<PlaylistEntry>)
    ensures
        spec_entries_text(folder, a + b) == spec_entries_text(folder, a) + spec_entries_text(folder, b),
    decreases b.len(),
{
    if b.len() == 0 {
        assert(a + b =~= a);
        assert(spec_entries_text(folder, a) + Seq::<char>::empty() =~= spec_entries_text(folder, a));
    } else {
        lemma_entries_text_append(folder, a, b.drop_last());
        assert((a + b).drop_last() =~= a + b.drop_last());
        assert((a + b).last() == b.last());
        assert(spec_entries_text(folder, a + b) =~= spec_entries_text(folder, a) + spec_entries_text(folder, b));
    }
}

/// The export of a single track is the header and that track's two lines.
pub proof fn lemma_single_entry(folder: Seq<char>, entry: PlaylistEntry)
    ensures
        spec_m3a(folder, seq![entry]) == "#EXTM3U\n"@ + spec_entry_text(folder, entry),
{
    assert(seq![entry].drop_last() =~= Seq::<PlaylistEntry>::empty());
    assert(spec_entries_text(folder, Seq::<PlaylistEntry>::empty()) == Seq::<char>::empty());
    assert(spec_entries_text(folder, seq![entry]) == spec_entry_text(folder, entry));
    assert(Seq::<char>::empty() + spec_entry_text(folder, entry) =~= spec_entry_text(folder, entry));
}

/// An export of no tracks is the header line alone, and adding a track at the
/// end adds exactly two lines: `#EXTINF:0,` followed by the track's whole
/// title, then the track's audio path joined onto the folder.
pub proof fn lemma_export_grows_by_whole_lines(folder: Seq<char>, entries: Seq<PlaylistEntry>, entry: PlaylistEntry)
    ensures
        spec_m3a(folder, Seq::<PlaylistEntry>::empty()) =~= "#EXTM3U\n"@,
        spec_m3a(folder, entries.push(entry)) =~= spec_m3a(folder, entries) + "#EXTINF:0,"@ + entry.title@ + "\n"@
            + paths::path_joined(folder, entry.audio_path@) + "\n"@,
{
    assert(entries.push(entry).drop_last() =~= entries);
    assert(spec_entries_text(folder, Seq::<PlaylistEntry>::empty()) =~= Seq::<char>::empty());
}

/// Each track's title appears whole in the export, right after `#EXTINF:0,`
/// and the text of the tracks before it.
pub proof fn lemma_title_appears_whole(folder: Seq<char>, entries: Seq<PlaylistEntry>, i: int)
    requires
        0 <= i < entries.len(),
    ensures
        ({
            let before = spec_m3a(folder, entries.take(i)) + "#EXTINF:0,"@;
            &&& before.len() + entries[i].title@.len() <= spec_m3a(folder, entries).len()
            &&& spec_m3a(folder, entries).subrange(before.len() as int, before.len() + entries[i].title@.len() as int)
                =~= entries[i].title@
            &&& spec_m3a(folder, entries).subrange(0, before.len() as int) =~= before
        }),
{
    let head = entries.take(i + 1);
    lemma_export_grows_by_whole_lines(folder, entries.take(i), entries[i]);
    assert(entries.take(i).push(entries[i]) =~= head);
    lemma_entries_text_append(folder, head, entries.skip(i + 1));
    assert(head + entries.skip(i + 1) =~= entries);
    let whole = spec_m3a(folder, entries);
    let first = spec_m3a(folder, head);
    assert(whole =~= first + spec_entries_text(folder, entries.skip(i + 1)));
    let before = spec_m3a(folder, entries.take(i)) + "#EXTINF:0,"@;
    let title = entries[i].title@;
    assert(first =~= before + title + ("\n"@ + paths::path_joined(folder, entries[i].audio_path@) + "\n"@));
    assert(whole.subrange(before.len() as int, before.len() + title.len() as int) =~= title);
    assert(whole.subrange(0, before.len() as int) =~= before);
}

} // verus!
