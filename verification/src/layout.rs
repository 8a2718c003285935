//! Where a playlist keeps its files.
//!
//! A playlist database at `<folder>/<name>.<ext>` shares its folder with
//! `audio/` (one file per track, `<video id>.<format>`), `thumbnail/` (one
//! image per track, `<video id>.<image type>`) and the exported `<name>.m3a`.
use vstd::prelude::*;
use crate::error::PlaylistError;
use crate::paths;
use crate::paths::{file_name, join, parent, with_extension};

verus! {

/// What `mime2ext::mime2ext` gives for a MIME type: the usual file extension
/// of that type, if the crate's table knows it.
pub uninterp spec fn mime_extension(mime: Seq<char>) -> Option<Seq<char>>;

/// Calls `mime2ext::mime2ext`. The result is claimed to be `mime_extension`
/// of `mime`; an extension that the table holds is non-empty and has no `/`
/// and no `.` (the crate's own test checks every entry of its table for this).
#[verifier::external_body]
fn extension_for_mime(mime: &str) -> (res: Option<String>)
    ensures
        res matches Some(e) ==> mime_extension(mime@) == Some(e@),
        res matches Some(e) ==> e@.len() > 0 && !e@.contains('/') && !e@.contains('.'),
        res is None ==> mime_extension(mime@) is None,
{
    match mime2ext::mime2ext(mime) {
        Some(e) => Some(e.to_string()),
        None => None,
    }
}

/// The folder of a playlist's audio files.
pub open spec fn spec_audio_folder(folder: Seq<char>) -> Seq<char> {
    paths::path_joined(folder, "audio"@)
}

/// The folder of a playlist's thumbnails.
pub open spec fn spec_thumbnail_folder(folder: Seq<char>) -> Seq<char> {
    paths::path_joined(folder, "thumbnail"@)
}

/// Where the audio of the video `video_id`, in a format whose extension is
/// `extension`, is stored.
pub open spec fn spec_audio_destination(folder: Seq<char>, video_id: Seq<char>, extension: Seq<char>) -> Seq<char> {
    paths::path_with_extension(paths::path_joined(spec_audio_folder(folder), video_id), extension)
}

/// Where the thumbnail of the video `video_id` is stored, given the content type
/// that the image server answered with: nowhere when there is none or when its
/// extension is unknown.
pub open spec fn spec_thumbnail_destination(
    folder: Seq<char>,
    video_id: Seq<char>,
    content_type: Option<Seq<char>>,
) -> Option<Seq<char>> {
    match content_type {
        None => None,
        Some(mime) => match mime_extension(mime) {
            None => None,
            Some(ext) => Some(paths::path_with_extension(paths::path_joined(spec_thumbnail_folder(folder), video_id), ext)),
        },
    }
}

/// Where the `.m3a` export of the playlist called `name` is written.
pub open spec fn spec_m3a_destination(folder: Seq<char>, name: Seq<char>) -> Seq<char> {
    paths::path_with_extension(paths::path_joined(folder, name), "m3a"@)
}

/// The name of the playlist whose database is at `path`: its file name without extension.
pub open spec fn spec_playlist_name(path: Seq<char>) -> Option<Seq<char>> {
    paths::path_file_name(paths::path_with_extension(path, ""@))
}

/// The folder that holds the playlist database at `path`, or
/// `PlaylistHasNoParentFolder` when the path has no parent.
pub fn playlist_folder(path: &str) -> (res: Result<String, PlaylistError>)
    ensures
        match paths::path_parent(path@) {
            Some(f) => res matches Ok(s) && s@ == f,
            None => res matches Err(PlaylistError::PlaylistHasNoParentFolder),
        },
{
    match parent(path) {
        Some(folder) => Ok(folder),
        None => Err(PlaylistError::PlaylistHasNoParentFolder),
    }
}

/// The folder of the audio files of the playlist in `folder`.
pub fn audio_folder(folder: &str) -> (res: String)
    ensures
        res@ == spec_audio_folder(folder@),
{
    join(folder, "audio")
}

/// The folder of the thumbnails of the playlist in `folder`.
pub fn thumbnail_folder(folder: &str) -> (res: String)
    ensures
        res@ == spec_thumbnail_folder(folder@),
{
    join(folder, "thumbnail")
}

/// Where the audio of `video_id` goes, in a format with the given extension.
/// The extension holds no path separator (std panics on one).
pub fn audio_destination(folder: &str, video_id: &str, extension: &str) -> (res: String)
    requires
        paths::free_of_separator(extension@),
    ensures
        res@ == spec_audio_destination(folder@, video_id@, extension@),
{
    let dir = audio_folder(folder);
    let file = join(dir.as_str(), video_id);
    with_extension(file.as_str(), extension)
}

/// Where the thumbnail of `video_id` goes, given the content type of the
/// downloaded image; `None` when there is no content type or its file
/// extension is unknown, and then the image is not stored.
pub fn thumbnail_destination(folder: &str, video_id: &str, content_type: Option<&str>) -> (res: Option<String>)
    ensures
        match res {
            Some(p) => spec_thumbnail_destination(folder@, video_id@, opt_str_view(content_type)) == Some(p@),
            None => spec_thumbnail_destination(folder@, video_id@, opt_str_view(content_type)) is None,
        },
{
    match content_type {
        None => None,
        Some(mime) => match extension_for_mime(mime) {
            None => None,
            Some(ext) => {
                let dir = thumbnail_folder(folder);
                let file = join(dir.as_str(), video_id);
                Some(with_extension(file.as_str(), ext.as_str()))
            },
        },
    }
}

/// Whether `b` may stand in a header value read as text: a visible ASCII
/// character or a tab.
pub open spec fn is_visible_header_byte(b: u8) -> bool {
    (32 <= b && b < 127) || b == 9
}

/// A header value read as text: its bytes as characters when every byte is
/// visible ASCII or a tab, otherwise nothing.
pub open spec fn spec_header_text(value: Seq<u8>) -> Option<Seq<char>> {
    if forall|i: int| 0 <= i < value.len() ==> is_visible_header_byte(#[trigger] value[i]) {
        Some(value.map_values(|b: u8| b as char))
    } else {
        None
    }
}

/// Calls `std::str::from_utf8`: the text that `bytes` encode, when they are
/// valid UTF-8. The result is claimed to be vstd's decoding of the bytes.
#[verifier::external_body]
fn utf8_text(bytes: &[u8]) -> (res: Option<String>)
    ensures
        res is Some <==> vstd::utf8::valid_utf8(bytes@),
        res matches Some(s) ==> s@ == vstd::utf8::decode_utf8(bytes@),
{
    match std::str::from_utf8(bytes) {
        Ok(s) => Some(s.to_string()),
        Err(_) => None,
    }
}

/// ASCII bytes are valid UTF-8, and decode to one character per byte.
proof fn lemma_ascii_bytes_decode(bytes: Seq<u8>)
    requires
        forall|i: int| 0 <= i < bytes.len() ==> #[trigger] bytes[i] < 128,
    ensures
        vstd::utf8::valid_utf8(bytes),
        vstd::utf8::decode_utf8(bytes) == bytes.map_values(|b: u8| b as char),
{
    let chars = bytes.map_values(|b: u8| b as char);
    assert(vstd::utf8::is_ascii_chars(chars));
    vstd::utf8::is_ascii_chars_encode_utf8(chars);
    assert forall|i: int| 0 <= i < bytes.len() implies
        #[trigger] vstd::utf8::encode_utf8(chars)[i] == bytes[i] by {
        assert(chars[i] as u8 == vstd::utf8::encode_utf8(chars)[i]);
    }
    assert(vstd::utf8::encode_utf8(chars) =~= bytes);
    vstd::utf8::encode_utf8_valid_utf8(chars);
    vstd::utf8::encode_utf8_decode_utf8(chars);
}

/// The `Content-Type` header value as text, as the image server sent it:
/// `None` when a byte is neither visible ASCII nor a tab (such a value names
/// no known image type, and the thumbnail is then not stored).
pub fn content_type_text(value: &[u8]) -> (res: Option<String>)
    ensures
        match res {
            Some(s) => spec_header_text(value@) == Some(s@),
            None => spec_header_text(value@) is None,
        },
{
    let n = value.len();
    for i in 0..n
        invariant
            n == value@.len(),
            forall|k: int| 0 <= k < i ==> is_visible_header_byte(#[trigger] value@[k]),
    {
        let b = value[i];
        if !((b >= 32 && b < 127) || b == 9) {
            assert(!is_visible_header_byte(value@[i as int]));
            return None;
        }
    }
    proof {
        lemma_ascii_bytes_decode(value@);
    }
    utf8_text(value)
}

/// The view of an optional string slice.
pub open spec fn opt_str_view(s: Option<&str>) -> Option<Seq<char>> {
    match s {
        Some(t) => Some(t@),
        None => None,
    }
}

/// Where the `.m3a` export of the playlist `name` in `folder` is written.
pub fn m3a_destination(folder: &str, name: &str) -> (res: String)
    ensures
        res@ == spec_m3a_destination(folder@, name@),
{
    let file = join(folder, name);
    proof {
        reveal_strlit("m3a");
    }
    with_extension(file.as_str(), "m3a")
}

/// The name of the playlist whose database is at `path`, or `None` when the
/// path, its extension removed, has no file name.
pub fn playlist_name(path: &str) -> (res: Option<String>)
    ensures
        match res {
            Some(n) => spec_playlist_name(path@) == Some(n@),
            None => spec_playlist_name(path@) is None,
        },
{
    proof {
        reveal_strlit("");
    }
    let stem = with_extension(path, "");
    file_name(stem.as_str())
}

/// A header value is read as text exactly when each of its bytes is a
/// printable ASCII character (space, byte 32, through `~`, byte 126) or a
/// tab; the text then has one character per byte, with the same code.
pub proof fn lemma_header_text_accepts_visible_ascii(value: Seq<u8>)
    ensures
        (forall|i: int| 0 <= i < value.len() ==> (32 <= #[trigger] value[i] <= 126 || value[i] == 9))
            ==> spec_header_text(value) is Some,
        (exists|i: int| 0 <= i < value.len() && !(32 <= #[trigger] value[i] <= 126 || value[i] == 9))
            ==> spec_header_text(value) is None,
        spec_header_text(value) matches Some(text) ==> {
            &&& text.len() == value.len()
            &&& forall|i: int| 0 <= i < value.len() ==> #[trigger] text[i] as u32 == value[i] as u32
        },
{
    if spec_header_text(value) is Some {
        let text = spec_header_text(value)->0;
        assert forall|i: int| 0 <= i < value.len() implies #[trigger] text[i] as u32 == value[i] as u32 by {
            assert(text[i] == value[i] as char);
        }
    }
}

} // verus!
