use cue::library::{Playlist, Song};
use cue::rekordbox::{escape_xml, export_xml};

fn song() -> Song {
    Song {
        id: "1".to_string(),
        title: "Test Song".to_string(),
        artist: "Test Artist".to_string(),
        album: Some("Test Album".to_string()),
        filename: "test.mp3".to_string(),
    }
}

#[test]
fn test_export_rekordbox_xml() {
    let xml = export_xml(&vec![song()], "/tmp/library");
    assert!(xml.contains("DJ_PLAYLISTS"));
    assert!(xml.contains("COLLECTION"));
    assert!(xml.contains("TRACK"));
    assert!(xml.contains("TrackID=\"1\""));
    assert!(xml.contains("Name=\"Test Song\""));
    assert!(xml.contains("Artist=\"Test Artist\""));
    assert!(xml.contains("Location=\"file://localhost"));
    assert!(xml.contains("test.mp3\""));
}

#[test]
fn export_counts_entries_and_keeps_order() {
    let mut second = song();
    second.id = "2".to_string();
    second.title = "Another".to_string();
    second.album = None;
    let xml = export_xml(&vec![song(), second], "/lib");
    assert!(xml.contains("Entries=\"2\""));
    let first_pos = xml.find("TrackID=\"1\"").unwrap();
    let second_pos = xml.find("TrackID=\"2\"").unwrap();
    assert!(first_pos < second_pos);
    // A song without an album writes no Album attribute for it.
    assert!(!xml.contains("Another\" Album"));
    assert!(xml.contains("Location=\"file://localhost/lib/Songs/test.mp3\""));
}

#[test]
fn export_of_empty_library() {
    let xml = export_xml(&Vec::new(), "/lib");
    assert!(xml.starts_with("<?xml version=\"1.0\" encoding=\"UTF-8\"?>"));
    assert!(xml.contains("Entries=\"0\""));
    assert!(xml.contains("<PLAYLISTS>"));
    assert!(xml.ends_with("</DJ_PLAYLISTS>"));
}

#[test]
fn attribute_values_are_escaped() {
    assert_eq!(escape_xml("a&b<c>d\"e'f"), "a&amp;b&lt;c&gt;d&quot;e&apos;f");
    assert_eq!(escape_xml("plain"), "plain");
    let mut tricky = song();
    tricky.title = "Rock & Roll <live>".to_string();
    let xml = export_xml(&vec![tricky], "/lib");
    assert!(xml.contains("Name=\"Rock &amp; Roll &lt;live&gt;\""));
}

#[test]
fn playlist_record_carries_its_fields() {
    let p = Playlist { id: "pl1".to_string(), name: "Party".to_string() };
    assert_eq!(p.id, "pl1");
    assert_eq!(p.name, "Party");
    assert_eq!(cue::library::search_pattern("App"), "%App%");
}
