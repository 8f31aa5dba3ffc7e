use cue::cmdline::{augmented_path, download_args, filename_args, metadata_args, output_template,
    songs_dir, Os};
use cue::config::{default_auto_update, default_library_path, Config};
use cue::job::{resolve_metadata_entry, validate_metadata, Metadata};

#[test]
fn auto_update_defaults_on() {
    assert!(default_auto_update());
}

#[test]
fn library_path_fallback_chain() {
    assert_eq!(
        default_library_path(Some("/audio".to_string()), Some("/home/u/Music".to_string())),
        "/audio"
    );
    assert_eq!(default_library_path(None, Some("/home/u/Music".to_string())), "/home/u/Music");
    assert_eq!(default_library_path(None, None), ".");
}

#[test]
fn initial_config_pins_the_tool_version() {
    let c = Config::initial("/music".to_string());
    assert_eq!(c.library_path, "/music");
    assert_eq!(c.yt_dlp_version, "2026.02.04");
    assert!(c.auto_update);
}

#[test]
fn invocation_paths_and_template() {
    assert_eq!(songs_dir("/music"), "/music/Songs");
    assert_eq!(
        output_template("/music/Songs"),
        "/music/Songs/%(title).150s-%(id).50s.%(ext)s"
    );
    assert_eq!(augmented_path("/bin", "/usr/bin:/sbin", Os::Linux), "/bin:/usr/bin:/sbin");
    assert_eq!(augmented_path("C:\\bin", "C:\\win", Os::Windows), "C:\\bin;C:\\win");
}

#[test]
fn download_invocation_arguments() {
    let args = download_args("/data/bin", "/music/Songs/%(title).150s-%(id).50s.%(ext)s", "URL");
    assert_eq!(
        args,
        vec![
            "--restrict-filenames",
            "-x",
            "--audio-format",
            "mp3",
            "--audio-quality",
            "320k",
            "--ffmpeg-location",
            "/data/bin",
            "--js-runtimes",
            "bun",
            "--embed-thumbnail",
            "--embed-metadata",
            "--compat-options",
            "no-youtube-unavailable-videos",
            "-o",
            "/music/Songs/%(title).150s-%(id).50s.%(ext)s",
            "--newline",
            "--progress-template",
            "download-progress:%(progress._percent_str)s",
            "URL",
        ]
    );
}

#[test]
fn filename_and_metadata_arguments() {
    assert_eq!(
        filename_args("TPL", "URL"),
        vec!["--restrict-filenames", "-o", "TPL", "--get-filename", "URL"]
    );
    assert_eq!(metadata_args("URL"), vec!["--dump-json", "--flat-playlist", "URL"]);
}

#[test]
fn metadata_fallbacks() {
    let m = resolve_metadata_entry(
        "https://queried",
        None,
        None,
        None,
        None,
        Some("The Creator".to_string()),
        Some("The Uploader".to_string()),
        None,
        None,
        None,
    );
    assert_eq!(m.id, "unknown");
    assert_eq!(m.url, "https://queried");
    assert_eq!(m.title, "Unknown Title");
    assert_eq!(m.artist, "The Creator");

    let m = resolve_metadata_entry(
        "https://queried",
        Some("vid1".to_string()),
        Some("https://direct".to_string()),
        Some("A Song".to_string()),
        Some("An Artist".to_string()),
        None,
        None,
        Some("An Album".to_string()),
        Some("thumb.jpg".to_string()),
        Some(215),
    );
    assert_eq!(m.id, "vid1");
    assert_eq!(m.url, "https://direct");
    assert_eq!(m.title, "A Song");
    assert_eq!(m.artist, "An Artist");
    assert_eq!(m.album.as_deref(), Some("An Album"));
    assert_eq!(m.thumbnail.as_deref(), Some("thumb.jpg"));
    assert_eq!(m.duration_secs, Some(215));

    let m = resolve_metadata_entry(
        "https://queried", None, None, None, None, None,
        Some("Uploader Only".to_string()), None, None, None,
    );
    assert_eq!(m.artist, "Uploader Only");
    let m = resolve_metadata_entry(
        "https://queried", None, None, None, None, None, None, None, None, None,
    );
    assert_eq!(m.artist, "Unknown Artist");
}

#[test]
fn empty_metadata_batch_is_rejected() {
    let empty: Vec<Metadata> = Vec::new();
    assert_eq!(validate_metadata(empty).err().unwrap(), "No metadata found");
    let one = vec![resolve_metadata_entry(
        "u", None, None, None, None, None, None, None, None, None,
    )];
    assert_eq!(validate_metadata(one).unwrap().len(), 1);
}
