use std::path::{Component, PathBuf};

use upload_music::audioutils::TrackMetadata;
use upload_music::file_namer::{filename_for, get_filename};

fn dummy_metadata() -> TrackMetadata {
    TrackMetadata {
        artist: Some("Artist Name".to_string()),
        title: Some("Track Title".to_string()),
        album: Some("Album Name".to_string()),
        tracknumber: Some(1),
    }
}

#[test]
fn test_get_filename_with_literal_pattern() {
    let metadata = dummy_metadata();
    let pattern = String::from("a literal pattern");
    assert_eq!(PathBuf::from(format!("{}.{}", pattern, "mp3")), get_filename(&metadata, &pattern, Some("mp3")));
}

#[test]
fn test_get_filename_with_directory_in_literal_pattern() {
    let metadata = dummy_metadata();
    let pattern = String::from("one/two/three");

    let result = get_filename(&metadata, &pattern, Some("mp3"));
    let expected_result = Vec::from([
        Component::Normal(std::path::Path::new("one").as_os_str()),
        Component::Normal(std::path::Path::new("two").as_os_str()),
        Component::Normal(std::path::Path::new("three.mp3").as_os_str()),
    ]);
    let folders: Vec<_> = result.components().collect();
    assert_eq!(expected_result, folders);
}

#[test]
fn test_get_filename_with_placeholders() {
    let metadata = dummy_metadata();
    let pattern = String::from("{{ARTIST}}_{{ALBUM}}_{{TRACKNUMBER}}_{{TITLE}}");
    assert_eq!(PathBuf::from("Artist Name_Album Name_1_Track Title.mp3"), get_filename(&metadata, &pattern, Some("mp3")));
}

#[test]
fn test_get_filename_with_directory_with_placeholders() {
    let metadata = dummy_metadata();
    let pattern = String::from("{{ARTIST}}/{{ALBUM}}/{{TRACKNUMBER}} - {{TITLE}}");

    let result = get_filename(&metadata, &pattern, Some("mp3"));
    let expected_result = Vec::from([
        Component::Normal(std::path::Path::new("Artist Name").as_os_str()),
        Component::Normal(std::path::Path::new("Album Name").as_os_str()),
        Component::Normal(std::path::Path::new("1 - Track Title.mp3").as_os_str()),
    ]);
    let folders: Vec<_> = result.components().collect();
    assert_eq!(expected_result, folders);
}

fn short_metadata() -> TrackMetadata {
    TrackMetadata {
        artist: Some("A".to_string()),
        title: Some("T".to_string()),
        album: Some("B".to_string()),
        tracknumber: Some(3),
    }
}

#[test]
fn complete_metadata_gives_nested_path() {
    let pattern = String::from("{{ARTIST}}/{{ALBUM}}/{{TRACKNUMBER}} - {{TITLE}}");
    let result = get_filename(&short_metadata(), &pattern, Some("mp3"));
    assert_eq!(result, PathBuf::from("A/B/3 - T.mp3"));
    let parts: Vec<_> = result.components().collect();
    assert_eq!(parts.len(), 3);
    assert_eq!(result.parent(), Some(PathBuf::from("A/B").as_path()));
}

#[test]
fn missing_album_leaves_empty_segment() {
    let mut metadata = short_metadata();
    metadata.album = None;
    let pattern = "{{ARTIST}}/{{ALBUM}}/{{TRACKNUMBER}} - {{TITLE}}";
    assert_eq!(filename_for(&metadata, pattern, Some("mp3")), "A//3 - T.mp3");
}

#[test]
fn all_fields_missing_leave_only_literals() {
    let metadata = TrackMetadata { artist: None, title: None, album: None, tracknumber: None };
    let pattern = "{{ARTIST}}-{{ALBUM}}-{{TRACKNUMBER}}-{{TITLE}}";
    assert_eq!(filename_for(&metadata, pattern, None), "---");
}

#[test]
fn no_extension_gives_rendered_text_alone() {
    assert_eq!(filename_for(&short_metadata(), "{{TITLE}}", None), "T");
}

#[test]
fn track_number_is_plain_decimal() {
    let mut metadata = short_metadata();
    metadata.tracknumber = Some(1207);
    assert_eq!(filename_for(&metadata, "{{TRACKNUMBER}}", Some("ogg")), "1207.ogg");
    metadata.tracknumber = Some(0);
    assert_eq!(filename_for(&metadata, "{{TRACKNUMBER}}", None), "0");
    metadata.tracknumber = Some(-42);
    assert_eq!(filename_for(&metadata, "{{TRACKNUMBER}}", None), "-42");
    metadata.tracknumber = Some(i32::MIN);
    assert_eq!(filename_for(&metadata, "{{TRACKNUMBER}}", None), "-2147483648");
    metadata.tracknumber = Some(i32::MAX);
    assert_eq!(filename_for(&metadata, "{{TRACKNUMBER}}", None), "2147483647");
}

#[test]
fn repeated_placeholder_is_replaced_everywhere() {
    assert_eq!(filename_for(&short_metadata(), "{{ARTIST}}{{ARTIST}}/{{ARTIST}}", None), "AA/A");
}

#[test]
fn non_ascii_text_is_kept() {
    let metadata = TrackMetadata {
        artist: Some("Björk".to_string()),
        title: Some("Jóga".to_string()),
        album: None,
        tracknumber: None,
    };
    assert_eq!(filename_for(&metadata, "ü/{{ARTIST}}/{{TITLE}}", Some("flac")), "ü/Björk/Jóga.flac");
}

#[test]
fn unknown_token_stays_literal() {
    assert_eq!(filename_for(&short_metadata(), "{{GENRE}}_{{TITLE", None), "{{GENRE}}_{{TITLE");
}

#[test]
fn inserted_values_are_not_filled_again() {
    let metadata = TrackMetadata {
        artist: Some("{{TITLE}}".to_string()),
        title: Some("T".to_string()),
        album: None,
        tracknumber: None,
    };
    assert_eq!(filename_for(&metadata, "{{ARTIST}}", None), "{{TITLE}}");
    assert_eq!(get_filename(&metadata, &"{{ARTIST}}".to_string(), None), PathBuf::from("{{TITLE}}"));
    let metadata = TrackMetadata {
        artist: Some("{{ALB".to_string()),
        title: None,
        album: Some("X".to_string()),
        tracknumber: None,
    };
    assert_eq!(filename_for(&metadata, "{{ARTIST}}UM}}", None), "{{ALBUM}}");
}

#[test]
fn fill_order_does_not_matter() {
    let metadata = TrackMetadata {
        artist: Some("{{ALBUM}}".to_string()),
        title: Some("{{ARTIST}}".to_string()),
        album: Some("{{TRACKNUMBER}}".to_string()),
        tracknumber: Some(7),
    };
    assert_eq!(
        filename_for(&metadata, "{{TRACKNUMBER}}{{TITLE}}{{ALBUM}}{{ARTIST}}", Some("mp3")),
        "7{{ARTIST}}{{TRACKNUMBER}}{{ALBUM}}.mp3"
    );
}
