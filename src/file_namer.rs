use vstd::prelude::*;
use vstd::string::*;

use crate::audioutils::{TrackFields, TrackMetadata};
use crate::text::{decimal, decimal_text, matches_at};

verus! {

/// The text that a metadata field puts in place of its placeholder: the field
/// itself, or nothing when it is absent.
pub open spec fn field_text(o: Option<Seq<char>>) -> Seq<char> {
    match o {
        Some(s) => s,
        None => Seq::empty(),
    }
}

pub open spec fn track_text(o: Option<int>) -> Seq<char> {
    match o {
        Some(n) => decimal(n),
        None => Seq::empty(),
    }
}

/// Whether `s` starts with the (non-empty) placeholder `tok`.
pub open spec fn starts_with(s: Seq<char>, tok: Seq<char>) -> bool {
    0 < tok.len() <= s.len() && s.subrange(0, tok.len() as int) == tok
}

/// The pattern filled in one pass from the left: where a placeholder starts,
/// the field's text is put in and the scan goes on after the placeholder, so
/// text put in is never filled again; any other character is kept.
pub open spec fn rendered(md: TrackFields, p: Seq<char>) -> Seq<char>
    decreases p.len(),
{
    if p.len() == 0 {
        p
    } else if starts_with(p, "{{ARTIST}}"@) {
        field_text(md.artist) + rendered(md, p.subrange("{{ARTIST}}"@.len() as int, p.len() as int))
    } else if starts_with(p, "{{ALBUM}}"@) {
        field_text(md.album) + rendered(md, p.subrange("{{ALBUM}}"@.len() as int, p.len() as int))
    } else if starts_with(p, "{{TITLE}}"@) {
        field_text(md.title) + rendered(md, p.subrange("{{TITLE}}"@.len() as int, p.len() as int))
    } else if starts_with(p, "{{TRACKNUMBER}}"@) {
        track_text(md.tracknumber) + rendered(md, p.subrange("{{TRACKNUMBER}}"@.len() as int, p.len() as int))
    } else {
        seq![p[0]] + rendered(md, p.subrange(1, p.len() as int))
    }
}

/// The rendered pattern, followed by `.` and the extension when there is one.
pub open spec fn filename_text(md: TrackFields, pattern: Seq<char>, ext: Option<Seq<char>>) -> Seq<char> {
    match ext {
        Some(e) => rendered(md, pattern) + seq!['.'] + e,
        None => rendered(md, pattern),
    }
}

pub open spec fn ext_text(ext: Option<&str>) -> Option<Seq<char>> {
    match ext {
        Some(e) => Some(e@),
        None => None,
    }
}

/// The path that `PathBuf::from` makes of a text.
pub uninterp spec fn path_of(s: Seq<char>) -> std::path::PathBuf;

#[verifier::external_type_specification]
#[verifier::external_body]
pub struct ExPathBuf(std::path::PathBuf);

/// Relies on `PathBuf::from(String)`, which keeps the text as it is.
#[verifier::external_body]
fn to_path(s: String) -> (r: std::path::PathBuf)
    ensures
        r == path_of(s@),
{
    std::path::PathBuf::from(s)
}

/// Length of `tok` where it starts at character `i` of `p`.
fn token_at(p: &str, i: usize, tok: &str) -> (r: Option<usize>)
    requires
        i <= p@.len(),
    ensures
        match r {
            Some(m) => m == tok@.len() && starts_with(p@.subrange(i as int, p@.len() as int), tok@),
            None => !starts_with(p@.subrange(i as int, p@.len() as int), tok@),
        },
{
    let m = tok.unicode_len();
    let ghost t = p@.subrange(i as int, p@.len() as int);
    if m > 0 && matches_at(p, i, tok) {
        assert(t.subrange(0, m as int) =~= p@.subrange(i as int, i + m));
        Some(m)
    } else {
        proof {
            if 0 < m <= t.len() {
                assert(t.subrange(0, m as int) =~= p@.subrange(i as int, i + m));
            }
        }
        None
    }
}

/// The relative destination text for a track: the pattern filled in one pass
/// (absent fields give nothing, the track number its decimal digits), then
/// `.` and the extension if one is given.
pub fn filename_for(track_metadata: &TrackMetadata, filename_pattern: &str, file_extension: Option<&str>) -> (r: String)
    ensures
        r@ == filename_text(track_metadata@, filename_pattern@, ext_text(file_extension)),
{
    let empty = String::new();
    let artist = match &track_metadata.artist {
        Some(s) => s,
        None => &empty,
    };
    let album = match &track_metadata.album {
        Some(s) => s,
        None => &empty,
    };
    let title = match &track_metadata.title {
        Some(s) => s,
        None => &empty,
    };
    let track = match track_metadata.tracknumber {
        Some(n) => decimal_text(n),
        None => String::new(),
    };
    let ghost md = track_metadata@;
    let ghost p = filename_pattern@;
    let n = filename_pattern.unicode_len();
    let mut out = String::new();
    let mut i: usize = 0;
    assert(p.subrange(0, n as int) =~= p);
    assert(out@ + rendered(md, p) =~= rendered(md, p));
    while i < n
        invariant
            i <= n,
            n == p.len(),
            p == filename_pattern@,
            md == track_metadata@,
            artist@ == field_text(md.artist),
            album@ == field_text(md.album),
            title@ == field_text(md.title),
            track@ == track_text(md.tracknumber),
            out@ + rendered(md, p.subrange(i as int, n as int)) == rendered(md, p),
        decreases n - i,
    {
        let ghost t = p.subrange(i as int, n as int);
        let (value, m): (&str, usize) = match token_at(filename_pattern, i, "{{ARTIST}}") {
            Some(m) => (artist.as_str(), m),
            None => match token_at(filename_pattern, i, "{{ALBUM}}") {
                Some(m) => (album.as_str(), m),
                None => match token_at(filename_pattern, i, "{{TITLE}}") {
                    Some(m) => (title.as_str(), m),
                    None => match token_at(filename_pattern, i, "{{TRACKNUMBER}}") {
                        Some(m) => (track.as_str(), m),
                        None => (filename_pattern.substring_char(i, i + 1), 1),
                    },
                },
            },
        };
        assert(t.subrange(m as int, t.len() as int) =~= p.subrange(i + m, n as int));
        assert(value@ + rendered(md, t.subrange(m as int, t.len() as int)) == rendered(md, t));
        assert(out@ + value@ + rendered(md, p.subrange(i + m, n as int)) =~= out@ + rendered(md, t));
        out.append(value);
        i = i + m;
    }
    assert(p.subrange(n as int, n as int) =~= Seq::<char>::empty());
    assert(out@ + Seq::<char>::empty() =~= out@);
    match file_extension {
        Some(ext) => {
            proof {
                reveal_strlit(".");
            }
            out.append(".");
            out.append(ext);
        },
        None => {},
    }
    out
}

/// The destination path for a track, relative to the output root: the path
/// made of `filename_for`'s text, whose `/` separated parts are directories.
/// Nothing is sanitised: a `..` part or a leading `/`, from the pattern or from
/// the metadata, is kept, and where two tracks give the same path the later
/// one is written over the earlier.
pub fn get_filename(track_metadata: &TrackMetadata, filename_pattern: &String, file_extension: Option<&str>) -> (r: std::path::PathBuf)
    ensures
        r == path_of(filename_text(track_metadata@, filename_pattern@, ext_text(file_extension))),
{
    to_path(filename_for(track_metadata, filename_pattern.as_str(), file_extension))
}

proof fn lemma_not_starts(s: Seq<char>, t: Seq<char>, k: int)
    requires
        0 <= k < t.len(),
        k < s.len(),
        s[k] != t[k],
    ensures
        !starts_with(s, t),
{
    if starts_with(s, t) {
        assert(s.subrange(0, t.len() as int)[k] == s[k]);
    }
}

proof fn lemma_starts(t: Seq<char>, z: Seq<char>)
    requires
        t.len() > 0,
    ensures
        starts_with(t + z, t),
        (t + z).subrange(t.len() as int, (t + z).len() as int) == z,
{
    assert((t + z).subrange(0, t.len() as int) =~= t);
    assert((t + z).subrange(t.len() as int, (t + z).len() as int) =~= z);
}

/// A character other than `{` is kept as it is.
proof fn lemma_render_plain(md: TrackFields, c: char, z: Seq<char>)
    requires
        c != '{',
    ensures
        rendered(md, seq![c] + z) == seq![c] + rendered(md, z),
{
    reveal_strlit("{{ARTIST}}");
    reveal_strlit("{{ALBUM}}");
    reveal_strlit("{{TITLE}}");
    reveal_strlit("{{TRACKNUMBER}}");
    let s = seq![c] + z;
    lemma_not_starts(s, "{{ARTIST}}"@, 0);
    lemma_not_starts(s, "{{ALBUM}}"@, 0);
    lemma_not_starts(s, "{{TITLE}}"@, 0);
    lemma_not_starts(s, "{{TRACKNUMBER}}"@, 0);
    assert(s.subrange(1, s.len() as int) =~= z);
}

/// Each placeholder gives its field's text, and the scan goes on after it.
proof fn lemma_render_tokens(md: TrackFields, z: Seq<char>)
    ensures
        rendered(md, "{{ARTIST}}"@ + z) == field_text(md.artist) + rendered(md, z),
        rendered(md, "{{ALBUM}}"@ + z) == field_text(md.album) + rendered(md, z),
        rendered(md, "{{TITLE}}"@ + z) == field_text(md.title) + rendered(md, z),
        rendered(md, "{{TRACKNUMBER}}"@ + z) == track_text(md.tracknumber) + rendered(md, z),
{
    reveal_strlit("{{ARTIST}}");
    reveal_strlit("{{ALBUM}}");
    reveal_strlit("{{TITLE}}");
    reveal_strlit("{{TRACKNUMBER}}");
    lemma_starts("{{ARTIST}}"@, z);
    lemma_starts("{{ALBUM}}"@, z);
    lemma_starts("{{TITLE}}"@, z);
    lemma_starts("{{TRACKNUMBER}}"@, z);
    lemma_not_starts("{{ALBUM}}"@ + z, "{{ARTIST}}"@, 3);
    lemma_not_starts("{{TITLE}}"@ + z, "{{ARTIST}}"@, 2);
    lemma_not_starts("{{TITLE}}"@ + z, "{{ALBUM}}"@, 2);
    lemma_not_starts("{{TRACKNUMBER}}"@ + z, "{{ARTIST}}"@, 2);
    lemma_not_starts("{{TRACKNUMBER}}"@ + z, "{{ALBUM}}"@, 2);
    lemma_not_starts("{{TRACKNUMBER}}"@ + z, "{{TITLE}}"@, 3);
}

/// With the album absent, the nested pattern keeps both separators around the
/// empty album: `artist//track - title`, an empty path segment, not a collapsed one.
pub proof fn lemma_missing_album_leaves_empty_segment(md: TrackFields)
    requires
        md.album is None,
    ensures
        rendered(
            md,
            "{{ARTIST}}"@ + (seq!['/'] + ("{{ALBUM}}"@ + (seq!['/'] + ("{{TRACKNUMBER}}"@ + (seq![' ', '-', ' '] + "{{TITLE}}"@))))),
        ) == field_text(md.artist) + seq!['/', '/'] + track_text(md.tracknumber) + seq![' ', '-', ' '] + field_text(md.title),
{
    let t = "{{TITLE}}"@;
    let e = Seq::<char>::empty();
    assert(t + e =~= t);
    lemma_render_tokens(md, e);
    assert(rendered(md, e) =~= e);
    let s1 = seq![' ', '-', ' '] + t;
    assert(s1 =~= seq![' '] + (seq!['-'] + (seq![' '] + t)));
    lemma_render_plain(md, ' ', t);
    lemma_render_plain(md, '-', seq![' '] + t);
    lemma_render_plain(md, ' ', seq!['-'] + (seq![' '] + t));
    let s2 = "{{TRACKNUMBER}}"@ + s1;
    lemma_render_tokens(md, s1);
    let s3 = seq!['/'] + s2;
    lemma_render_plain(md, '/', s2);
    let s4 = "{{ALBUM}}"@ + s3;
    lemma_render_tokens(md, s3);
    let s5 = seq!['/'] + s4;
    lemma_render_plain(md, '/', s4);
    lemma_render_tokens(md, s5);
    assert(rendered(md, t) =~= field_text(md.title));
    assert(rendered(md, s1) =~= seq![' ', '-', ' '] + field_text(md.title));
    assert(field_text(md.artist) + (seq!['/'] + (field_text(md.album) + (seq!['/'] + (track_text(md.tracknumber) + (seq![' ', '-', ' '] + field_text(md.title))))))
        =~= field_text(md.artist) + seq!['/', '/'] + track_text(md.tracknumber) + seq![' ', '-', ' '] + field_text(md.title));
}

/// Text put in for a placeholder is not filled again, even where it reads as one.
pub proof fn lemma_inserted_text_is_not_refilled(md: TrackFields)
    ensures
        rendered(md, "{{ARTIST}}"@) == field_text(md.artist),
{
    let e = Seq::<char>::empty();
    assert("{{ARTIST}}"@ + e =~= "{{ARTIST}}"@);
    lemma_render_tokens(md, e);
    assert(rendered(md, e) =~= e);
    assert(field_text(md.artist) + e =~= field_text(md.artist));
}

} // verus!
