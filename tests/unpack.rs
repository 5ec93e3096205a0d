use std::io::{Cursor, Write};
use std::path::PathBuf;

use upload_music::appconfig::{default_interface, default_port};
use upload_music::audioutils::{classify, TrackMetadata, empty_track_data, extract_metadata, is_supported_audiofile, media_kind, MediaKind};
use upload_music::errors::AppError;
use upload_music::ziputils::{entry_extension, is_zipfile, Unpacker};
use zip::write::SimpleFileOptions;
use zip::ZipWriter;

fn id3_text_frame(id: &[u8; 4], text: &str) -> Vec<u8> {
    let mut f: Vec<u8> = id.to_vec();
    f.extend_from_slice(&((text.len() + 1) as u32).to_be_bytes());
    f.extend_from_slice(&[0, 0, 0]);
    f.extend_from_slice(text.as_bytes());
    f
}

fn mp3_bytes(artist: &str, title: &str, album: &str) -> Vec<u8> {
    let mut frames: Vec<u8> = Vec::new();
    frames.extend(id3_text_frame(b"TPE1", artist));
    frames.extend(id3_text_frame(b"TIT2", title));
    frames.extend(id3_text_frame(b"TALB", album));
    frames.extend(id3_text_frame(b"TRCK", "3"));
    let n = frames.len() as u32;
    let mut b: Vec<u8> = b"ID3".to_vec();
    b.extend_from_slice(&[3, 0, 0]);
    b.extend_from_slice(&[((n >> 21) & 0x7f) as u8, ((n >> 14) & 0x7f) as u8, ((n >> 7) & 0x7f) as u8, (n & 0x7f) as u8]);
    b.extend(frames);
    for _ in 0..4 {
        let mut frame = vec![0u8; 417];
        frame[0] = 0xff;
        frame[1] = 0xfb;
        frame[2] = 0x90;
        frame[3] = 0x00;
        b.extend(frame);
    }
    b
}

fn corrupt_flac_bytes() -> Vec<u8> {
    let mut b: Vec<u8> = b"fLaC".to_vec();
    b.extend_from_slice(&[0xff; 64]);
    b
}

enum Item<'a> {
    Dir(&'a str),
    File(&'a str, Vec<u8>),
}

fn zip_of(items: Vec<Item>) -> Vec<u8> {
    let mut w = ZipWriter::new(Cursor::new(Vec::new()));
    let options = SimpleFileOptions::default();
    for item in items {
        match item {
            Item::Dir(name) => w.add_directory(name, options).unwrap(),
            Item::File(name, contents) => {
                w.start_file(name, options).unwrap();
                w.write_all(&contents).unwrap();
            }
        }
    }
    w.finish().unwrap().into_inner()
}

#[test]
fn plain_text_payload_is_refused_up_front() {
    let payload = b"just some plain text, not an archive\n".to_vec();
    assert!(!is_zipfile(&payload));
    match Unpacker::open(payload, "{{TITLE}}".to_string()) {
        Err(e) => assert_eq!(e, AppError::InvalidContainer),
        Ok(_) => panic!("a text payload was accepted"),
    }
}

#[test]
fn zip_payload_is_recognised() {
    let payload = zip_of(vec![Item::File("a.txt", b"hello".to_vec())]);
    assert!(is_zipfile(&payload));
    assert_eq!(classify(&payload), MediaKind::Zip);
}

#[test]
fn archive_without_audio_writes_nothing() {
    let payload = zip_of(vec![
        Item::File("notes.txt", b"some notes\n".to_vec()),
        Item::File("cover.mp3", b"not really audio, whatever the name says".to_vec()),
    ]);
    let mut u = Unpacker::open(payload, "{{TITLE}}".to_string()).unwrap();
    assert!(matches!(u.next_write(), Ok(None)));
}

#[test]
fn directory_markers_are_skipped() {
    let payload = zip_of(vec![Item::Dir("album/"), Item::Dir("album/disc1/")]);
    let mut u = Unpacker::open(payload, "{{TITLE}}".to_string()).unwrap();
    assert!(matches!(u.next_write(), Ok(None)));
}

#[test]
fn corrupt_audio_entry_fails_after_the_format_check() {
    let payload = zip_of(vec![
        Item::File("readme.txt", b"read me".to_vec()),
        Item::File("bad.flac", corrupt_flac_bytes()),
    ]);
    assert!(is_zipfile(&payload));
    let mut u = Unpacker::open(payload, "{{TITLE}}".to_string()).unwrap();
    match u.next_write() {
        Err(AppError::MetadataExtractionFailed { index, name, .. }) => {
            assert_eq!(index, 1);
            assert_eq!(name, "bad.flac");
        }
        _ => panic!("expected a metadata failure"),
    }
}

#[test]
fn audio_entry_is_planned_with_its_extension() {
    let mp3 = mp3_bytes("A", "T", "B");
    assert!(is_supported_audiofile(&mp3));
    let payload = zip_of(vec![
        Item::Dir("music/"),
        Item::File("music/readme.txt", b"read me".to_vec()),
        Item::File("music/song.mp3", mp3.clone()),
    ]);
    let mut u = Unpacker::open(payload, "{{ARTIST}}/{{ALBUM}}/{{TRACKNUMBER}} - {{TITLE}}".to_string()).unwrap();
    let w = u.next_write().unwrap().unwrap();
    assert_eq!(w.destination, PathBuf::from("A/B/3 - T.mp3"));
    assert_eq!(w.contents, mp3);
    assert!(matches!(u.next_write(), Ok(None)));
}

#[test]
fn unpacking_twice_plans_the_same_writes() {
    let payload = zip_of(vec![
        Item::File("a.mp3", mp3_bytes("A", "One", "B")),
        Item::File("b.mp3", mp3_bytes("A", "One", "B")),
    ]);
    let mut first: Vec<PathBuf> = Vec::new();
    let mut second: Vec<PathBuf> = Vec::new();
    for out in [&mut first, &mut second] {
        let mut u = Unpacker::open(payload.clone(), "x-{{TITLE}}".to_string()).unwrap();
        while let Some(w) = u.next_write().unwrap() {
            out.push(w.destination);
        }
    }
    assert_eq!(first, vec![PathBuf::from("x-One.mp3"), PathBuf::from("x-One.mp3")]);
    assert_eq!(first, second);
}

#[test]
fn extension_comes_from_the_stored_name() {
    assert_eq!(entry_extension("a/b/c.mp3"), Some("mp3".to_string()));
    assert_eq!(entry_extension("x.tar.gz"), Some("gz".to_string()));
    assert_eq!(entry_extension("file."), Some("".to_string()));
    assert_eq!(entry_extension(".hidden"), None);
    assert_eq!(entry_extension("dir.x/file"), None);
    assert_eq!(entry_extension("a/.."), None);
    assert_eq!(entry_extension(""), None);
}

#[test]
fn media_types_map_to_kinds() {
    assert_eq!(media_kind("audio/mpeg"), MediaKind::Mpeg);
    assert_eq!(media_kind("audio/mp3"), MediaKind::Mpeg);
    assert_eq!(media_kind("audio/x-pn-wav"), MediaKind::Wav);
    assert_eq!(media_kind("audio/flac"), MediaKind::Flac);
    assert_eq!(media_kind("audio/x-aiff"), MediaKind::Aiff);
    assert_eq!(media_kind("application/zip"), MediaKind::Zip);
    assert_eq!(media_kind("text/plain"), MediaKind::Other);
    assert_eq!(media_kind("audio/flac2"), MediaKind::Other);
}

#[test]
fn content_not_extension_decides_audio() {
    assert!(!is_supported_audiofile(&b"just some words, nothing else".to_vec()));
    assert!(is_supported_audiofile(&corrupt_flac_bytes()));
}

#[test]
fn unparsable_audio_gives_metadata_error() {
    match extract_metadata(&corrupt_flac_bytes()) {
        Err(AppError::CannotReadAudioMetadata { .. }) => {}
        _ => panic!("expected a metadata error"),
    }
}

#[test]
fn tagged_audio_gives_its_fields() {
    let md = extract_metadata(&mp3_bytes("Artist", "Title", "Album")).unwrap();
    assert_eq!(md.artist, Some("Artist".to_string()));
    assert_eq!(md.title, Some("Title".to_string()));
    assert_eq!(md.album, Some("Album".to_string()));
    assert_eq!(md.tracknumber, Some(3));
}

#[test]
fn empty_record_has_no_fields() {
    let md = empty_track_data();
    assert_eq!(md, TrackMetadata { artist: None, title: None, album: None, tracknumber: None });
}

#[test]
fn defaults_of_the_configuration() {
    assert_eq!(default_port(), 5551);
    assert_eq!(default_interface(), "127.0.0.1");
}

