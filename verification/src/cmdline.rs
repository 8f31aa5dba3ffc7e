//! Construction of everything the external downloader invocation needs:
//! argument lists, the deterministic output template (derivable again after
//! the fact to recover the produced filename), and the augmented search
//! path through which the tool finds its sibling helper binaries.

use vstd::prelude::*;

verus! {

/// The platform the invocation is built for.
#[derive(Clone, Copy, Debug, PartialEq, Eq, Structural)]
pub enum Os {
    Windows,
    MacOs,
    Linux,
}

/// Separator between entries of the platform's search path.
pub open spec fn path_sep(os: Os) -> char {
    if os == Os::Windows {
        ';'
    } else {
        ':'
    }
}

/// The search path handed to the spawned process: the bundled binary
/// directory first, then the current search path.
pub fn augmented_path(bin_dir: &str, current_path: &str, os: Os) -> (r: String)
    ensures
        r@ == bin_dir@ + seq![path_sep(os)] + current_path@,
{
    proof {
        reveal_strlit(";");
        reveal_strlit(":");
    }
    let mut s = bin_dir.to_owned();
    match os {
        Os::Windows => s.append(";"),
        _ => s.append(":"),
    }
    s.append(current_path);
    assert(s@ =~= bin_dir@ + seq![path_sep(os)] + current_path@);
    s
}

/// The directory songs are written to, under the library root.
pub fn songs_dir(library_path: &str) -> (r: String)
    ensures
        r@ == library_path@ + "/Songs"@,
{
    let mut s = library_path.to_owned();
    s.append("/Songs");
    s
}

/// The deterministic output template: truncated title and id, with the
/// extension the tool picks. Re-running the tool with the same template
/// and URL resolves the same name.
pub fn output_template(songs_dir: &str) -> (r: String)
    ensures
        r@ == songs_dir@ + "/%(title).150s-%(id).50s.%(ext)s"@,
{
    let mut s = songs_dir.to_owned();
    s.append("/%(title).150s-%(id).50s.%(ext)s");
    s
}

/// The argument list of the downloading invocation: extract audio as high
/// quality mp3 with embedded metadata and thumbnail, find helper binaries
/// in `bin_dir`, write by `template`, and report progress line by line
/// under the structured progress marker.
pub fn download_args(bin_dir: &str, template: &str, url: &str) -> (r: Vec<String>)
    ensures
        r@.len() == 20,
        r@[0]@ == "--restrict-filenames"@,
        r@[1]@ == "-x"@,
        r@[2]@ == "--audio-format"@,
        r@[3]@ == "mp3"@,
        r@[4]@ == "--audio-quality"@,
        r@[5]@ == "320k"@,
        r@[6]@ == "--ffmpeg-location"@,
        r@[7]@ == bin_dir@,
        r@[8]@ == "--js-runtimes"@,
        r@[9]@ == "bun"@,
        r@[10]@ == "--embed-thumbnail"@,
        r@[11]@ == "--embed-metadata"@,
        r@[12]@ == "--compat-options"@,
        r@[13]@ == "no-youtube-unavailable-videos"@,
        r@[14]@ == "-o"@,
        r@[15]@ == template@,
        r@[16]@ == "--newline"@,
        r@[17]@ == "--progress-template"@,
        r@[18]@ == "download-progress:%(progress._percent_str)s"@,
        r@[19]@ == url@,
{
    let mut v: Vec<String> = Vec::new();
    v.push(String::from_str("--restrict-filenames"));
    v.push(String::from_str("-x"));
    v.push(String::from_str("--audio-format"));
    v.push(String::from_str("mp3"));
    v.push(String::from_str("--audio-quality"));
    v.push(String::from_str("320k"));
    v.push(String::from_str("--ffmpeg-location"));
    v.push(bin_dir.to_owned());
    v.push(String::from_str("--js-runtimes"));
    v.push(String::from_str("bun"));
    v.push(String::from_str("--embed-thumbnail"));
    v.push(String::from_str("--embed-metadata"));
    v.push(String::from_str("--compat-options"));
    v.push(String::from_str("no-youtube-unavailable-videos"));
    v.push(String::from_str("-o"));
    v.push(template.to_owned());
    v.push(String::from_str("--newline"));
    v.push(String::from_str("--progress-template"));
    v.push(String::from_str("download-progress:%(progress._percent_str)s"));
    v.push(url.to_owned());
    v
}

/// The argument list of the side-effect-free second invocation that
/// resolves the literal output filename from the same template and URL.
pub fn filename_args(template: &str, url: &str) -> (r: Vec<String>)
    ensures
        r@.len() == 5,
        r@[0]@ == "--restrict-filenames"@,
        r@[1]@ == "-o"@,
        r@[2]@ == template@,
        r@[3]@ == "--get-filename"@,
        r@[4]@ == url@,
{
    let mut v: Vec<String> = Vec::new();
    v.push(String::from_str("--restrict-filenames"));
    v.push(String::from_str("-o"));
    v.push(template.to_owned());
    v.push(String::from_str("--get-filename"));
    v.push(url.to_owned());
    v
}

/// The argument list of the metadata lookup invocation.
pub fn metadata_args(url: &str) -> (r: Vec<String>)
    ensures
        r@.len() == 3,
        r@[0]@ == "--dump-json"@,
        r@[1]@ == "--flat-playlist"@,
        r@[2]@ == url@,
{
    let mut v: Vec<String> = Vec::new();
    v.push(String::from_str("--dump-json"));
    v.push(String::from_str("--flat-playlist"));
    v.push(url.to_owned());
    v
}

} // verus!
