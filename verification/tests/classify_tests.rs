use cue::classify::{extract_progress, parse_log_status};
use cue::status::Phase;

#[test]
fn webpage_line_is_fetching_info() {
    assert_eq!(
        parse_log_status("[youtube] abc: Downloading webpage"),
        Some(Phase::FetchingInfo)
    );
}

#[test]
fn player_lines_are_preparing_download() {
    assert_eq!(
        parse_log_status("[youtube] abc: Downloading android vr player API JSON"),
        Some(Phase::PreparingDownload)
    );
    assert_eq!(
        parse_log_status("[youtube] abc: Downloading web safari player API JSON"),
        Some(Phase::PreparingDownload)
    );
    assert_eq!(
        parse_log_status("[youtube] abc: Downloading player 12345"),
        Some(Phase::PreparingDownload)
    );
    assert_eq!(
        parse_log_status("Solving JS challenges"),
        Some(Phase::PreparingDownload)
    );
    assert_eq!(
        parse_log_status("[youtube] abc: Downloading m3u8 information"),
        Some(Phase::PreparingDownload)
    );
}

#[test]
fn destination_and_marker_are_downloading() {
    assert_eq!(
        parse_log_status("[download] Destination: /music/song.webm"),
        Some(Phase::Downloading)
    );
    assert_eq!(
        parse_log_status("download-progress:  3.2%"),
        Some(Phase::Downloading)
    );
}

#[test]
fn postprocessing_lines() {
    assert_eq!(
        parse_log_status("[ExtractAudio] Destination replaced"),
        Some(Phase::ExtractingAudio)
    );
    assert_eq!(parse_log_status("Extracting audio now"), Some(Phase::ExtractingAudio));
    assert_eq!(parse_log_status("[Metadata] writing"), Some(Phase::AddingMetadata));
    assert_eq!(parse_log_status("Adding metadata to file"), Some(Phase::AddingMetadata));
    assert_eq!(
        parse_log_status("[ThumbnailsConvertor] converting"),
        Some(Phase::ConvertingThumbnail)
    );
    assert_eq!(
        parse_log_status("Converting thumbnail to png"),
        Some(Phase::ConvertingThumbnail)
    );
    assert_eq!(
        parse_log_status("[EmbedThumbnail] embedding"),
        Some(Phase::EmbeddingThumbnail)
    );
    assert_eq!(
        parse_log_status("Adding thumbnail to file"),
        Some(Phase::EmbeddingThumbnail)
    );
}

#[test]
fn first_matching_rule_wins() {
    // Both the webpage rule and the destination rule could match; the
    // earlier rule decides.
    assert_eq!(
        parse_log_status("Downloading webpage Destination: x"),
        Some(Phase::FetchingInfo)
    );
}

#[test]
fn unmatched_line_leaves_phase_unchanged() {
    assert_eq!(parse_log_status("[download] 42.5% of 3MiB"), None);
    assert_eq!(parse_log_status(""), None);
}

#[test]
fn progress_marker_parses_tenths() {
    assert_eq!(extract_progress("download-progress:42.5%"), Some(425));
    assert_eq!(extract_progress("download-progress: 42.5%"), Some(425));
    assert_eq!(extract_progress("download-progress:100.0%"), Some(1000));
    assert_eq!(extract_progress("download-progress:0.0%"), Some(0));
    assert_eq!(extract_progress("download-progress:7%"), Some(70));
}

#[test]
fn malformed_progress_is_dropped() {
    assert_eq!(extract_progress("download-progress:N/A%"), None);
    assert_eq!(extract_progress("download-progress:%"), None);
    assert_eq!(extract_progress("download-progress:"), None);
    assert_eq!(extract_progress("download-progress:42.5"), None);
    assert_eq!(extract_progress("download-progress:.5%"), None);
    assert_eq!(extract_progress("download-progress:42.%"), None);
    assert_eq!(extract_progress("download-progress:4a%"), None);
    assert_eq!(extract_progress("no marker here"), None);
    // Too large for the tenths scale.
    assert_eq!(extract_progress("download-progress:99999999999%"), None);
}

#[test]
fn out_of_range_progress_is_passed_through() {
    // The supervisor does not clamp; values above one hundred percent pass.
    assert_eq!(extract_progress("download-progress:105.3%"), Some(1053));
}
