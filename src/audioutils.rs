use vstd::prelude::*;
use vstd::string::*;

use lofty::prelude::{Accessor, TaggedFileExt};

use crate::errors::AppError;
use crate::text::same_text;

verus! {

/// Tag data read from one audio entry; every field may be absent.
#[derive(Debug, Clone, PartialEq, Eq)]
pub struct TrackMetadata {
    pub artist: Option<String>,
    pub title: Option<String>,
    pub album: Option<String>,
    pub tracknumber: Option<i32>,
}

/// The mathematical form of `TrackMetadata`.
pub struct TrackFields {
    pub artist: Option<Seq<char>>,
    pub title: Option<Seq<char>>,
    pub album: Option<Seq<char>>,
    pub tracknumber: Option<int>,
}

impl View for TrackMetadata {
    type V = TrackFields;

    open spec fn view(&self) -> TrackFields {
        TrackFields {
            artist: text_of(self.artist),
            title: text_of(self.title),
            album: text_of(self.album),
            tracknumber: match self.tracknumber {
                Some(n) => Some(n as int),
                None => None,
            },
        }
    }
}

/// What the content of a byte buffer is, judged from the bytes alone.
#[derive(Debug, Clone, Copy, PartialEq, Eq)]
pub enum MediaKind {
    Aiff,
    Ape,
    Flac,
    Mpeg,
    Ogg,
    Opus,
    Speex,
    Wav,
    Zip,
    Other,
}

/// The media type that content sniffing assigns to `b`.
pub uninterp spec fn sniffed_mime(b: Seq<u8>) -> Seq<char>;

/// Artist, title, album and track number of the primary tag of the audio file held in `b`:
/// `None` where the file cannot be parsed, `Some(None)` where it has no tag.
pub uninterp spec fn tag_fields(b: Seq<u8>) -> Option<Option<(Option<Seq<char>>, Option<Seq<char>>, Option<Seq<char>>, Option<nat>)>>;

pub open spec fn kind_of_mime(m: Seq<char>) -> MediaKind {
    if m == "audio/x-aiff"@ {
        MediaKind::Aiff
    } else if m == "audio/x-ape"@ {
        MediaKind::Ape
    } else if m == "audio/flac"@ {
        MediaKind::Flac
    } else if m == "audio/mpeg"@ || m == "audio/mp3"@ {
        MediaKind::Mpeg
    } else if m == "audio/ogg"@ {
        MediaKind::Ogg
    } else if m == "audio/opus"@ {
        MediaKind::Opus
    } else if m == "audio/speex"@ {
        MediaKind::Speex
    } else if m == "audio/wav"@ || m == "audio/wave"@ || m == "audio/x-wav"@ || m
        == "audio/x-pn-wav"@ {
        MediaKind::Wav
    } else if m == "application/zip"@ {
        MediaKind::Zip
    } else {
        MediaKind::Other
    }
}

pub open spec fn is_audio_kind(k: MediaKind) -> bool {
    !(k is Zip || k is Other)
}

/// The kind of content that sniffing finds in `b`.
pub open spec fn content_kind(b: Seq<u8>) -> MediaKind {
    kind_of_mime(sniffed_mime(b))
}

pub open spec fn nat_of(o: Option<u32>) -> Option<nat> {
    match o {
        Some(n) => Some(n as nat),
        None => None,
    }
}

pub open spec fn text_of(o: Option<String>) -> Option<Seq<char>> {
    match o {
        Some(s) => Some(s@),
        None => None,
    }
}

/// The metadata that the tag fields `f` of a parsed file give; a track number
/// beyond what an `i32` holds is left out.
pub open spec fn fields_from_tags(f: Option<(Option<Seq<char>>, Option<Seq<char>>, Option<Seq<char>>, Option<nat>)>) -> TrackFields {
    match f {
        None => TrackFields { artist: None, title: None, album: None, tracknumber: None },
        Some((artist, title, album, track)) => TrackFields {
            artist,
            title,
            album,
            tracknumber: match track {
                Some(n) => if n <= i32::MAX { Some(n as int) } else { None },
                None => None,
            },
        },
    }
}

/// Relies on tree_magic::from_u8: the media type it finds in the bytes. With the
/// built-in type database only, the answer depends on the bytes alone.
#[verifier::external_body]
pub(crate) fn sniff_mime(bytes: &Vec<u8>) -> (r: String)
    ensures
        r@ == sniffed_mime(bytes@),
{
    tree_magic::from_u8(bytes.as_slice()).to_string()
}

/// Maps a media type to the kind it names.
pub fn media_kind(mime: &str) -> (r: MediaKind)
    ensures
        r == kind_of_mime(mime@),
{
    if same_text(mime, "audio/x-aiff") {
        MediaKind::Aiff
    } else if same_text(mime, "audio/x-ape") {
        MediaKind::Ape
    } else if same_text(mime, "audio/flac") {
        MediaKind::Flac
    } else if same_text(mime, "audio/mpeg") || same_text(mime, "audio/mp3") {
        MediaKind::Mpeg
    } else if same_text(mime, "audio/ogg") {
        MediaKind::Ogg
    } else if same_text(mime, "audio/opus") {
        MediaKind::Opus
    } else if same_text(mime, "audio/speex") {
        MediaKind::Speex
    } else if same_text(mime, "audio/wav") || same_text(mime, "audio/wave") || same_text(
        mime,
        "audio/x-wav",
    ) || same_text(mime, "audio/x-pn-wav") {
        MediaKind::Wav
    } else if same_text(mime, "application/zip") {
        MediaKind::Zip
    } else {
        MediaKind::Other
    }
}

/// Whether a media kind is one of the supported audio encodings.
pub fn is_audio(kind: MediaKind) -> (r: bool)
    ensures
        r == is_audio_kind(kind),
{
    match kind {
        MediaKind::Zip | MediaKind::Other => false,
        _ => true,
    }
}

/// Sniffs the kind of content that `contents` holds.
pub fn classify(contents: &Vec<u8>) -> (r: MediaKind)
    ensures
        r == content_kind(contents@),
{
    let mime = sniff_mime(contents);
    media_kind(mime.as_str())
}

/// Whether `contents` holds audio in one of the supported encodings, judged
/// from the bytes alone.
pub fn is_supported_audiofile(contents: &Vec<u8>) -> (r: bool)
    ensures
        r == is_audio_kind(content_kind(contents@)),
{
    is_audio(classify(contents))
}

/// A record with every field absent.
pub fn empty_track_data() -> (r: TrackMetadata)
    ensures
        r.artist is None,
        r.title is None,
        r.album is None,
        r.tracknumber is None,
{
    TrackMetadata { artist: None, title: None, album: None, tracknumber: None }
}

/// Relies on lofty's Probe (guess_file_type, then read), TaggedFileExt::primary_tag
/// and Accessor's artist, title, album and track: the tag fields of the audio
/// file in the bytes.
#[verifier::external_body]
fn read_tag_fields(bytes: &Vec<u8>) -> (r: Result<
    Option<(Option<String>, Option<String>, Option<String>, Option<u32>)>,
    lofty::error::FileParseError,
>)
    ensures
        match r {
            Ok(None) => tag_fields(bytes@) == Some::<Option<(Option<Seq<char>>, Option<Seq<char>>, Option<Seq<char>>, Option<nat>)>>(None),
            Ok(Some((a, t, al, n))) => tag_fields(bytes@) == Some(Some((text_of(a), text_of(t), text_of(al), nat_of(n)))),
            Err(_) => tag_fields(bytes@) is None,
        },
{
    let probe = lofty::probe::Probe::new(std::io::Cursor::new(bytes.as_slice())).guess_file_type()?;
    let file = probe.read()?;
    Ok(file.primary_tag().map(|t| (
        t.artist().map(|s| s.into_owned()),
        t.title().map(|s| s.into_owned()),
        t.album().map(|s| s.into_owned()),
        t.track(),
    )))
}

/// Relies on the Debug form of lofty's FileParseError, for diagnostics.
#[verifier::external_body]
fn parse_error_text(e: &lofty::error::FileParseError) -> String {
    format!("{:?}", e)
}

#[verifier::external_type_specification]
#[verifier::external_body]
pub struct ExFileParseError(lofty::error::FileParseError);

/// Reads the tag metadata of the audio file held in `contents`. A file without
/// tags gives a record with every field absent; a file that cannot be parsed
/// gives `CannotReadAudioMetadata`.
pub fn extract_metadata(contents: &Vec<u8>) -> (r: Result<TrackMetadata, AppError>)
    ensures
        match r {
            Ok(md) => tag_fields(contents@) is Some && md@ == fields_from_tags(tag_fields(contents@)->Some_0),
            Err(e) => tag_fields(contents@) is None && e is CannotReadAudioMetadata,
        },
{
    match read_tag_fields(contents) {
        Ok(None) => Ok(empty_track_data()),
        Ok(Some((artist, title, album, track))) => {
            let tracknumber = match track {
                Some(n) => if n <= i32::MAX as u32 { Some(n as i32) } else { None },
                None => None,
            };
            Ok(TrackMetadata { artist, title, album, tracknumber })
        },
        Err(e) => Err(AppError::CannotReadAudioMetadata { cause: parse_error_text(&e) }),
    }
}

} // verus!
