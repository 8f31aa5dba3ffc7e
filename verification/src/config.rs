//! Application configuration: the record itself and the pure defaulting
//! rules. Reading and writing the configuration file, and discovering the
//! platform's directories, happen outside; the decisions live here.

use vstd::prelude::*;

verus! {

/// The persisted application configuration.
pub struct Config {
    /// Root of the media library on disk.
    pub library_path: String,
    /// Version of the external downloader to resolve and run.
    pub yt_dlp_version: String,
    /// Whether the downloader is refreshed automatically.
    pub auto_update: bool,
}

/// Mathematical image of [`Config`].
pub ghost struct ConfigView {
    pub library_path: Seq<char>,
    pub yt_dlp_version: Seq<char>,
    pub auto_update: bool,
}

impl View for Config {
    type V = ConfigView;

    open spec fn view(&self) -> ConfigView {
        ConfigView {
            library_path: self.library_path@,
            yt_dlp_version: self.yt_dlp_version@,
            auto_update: self.auto_update,
        }
    }
}

impl Clone for Config {
    fn clone(&self) -> (r: Self)
        ensures
            r == *self,
    {
        Config {
            library_path: self.library_path.clone(),
            yt_dlp_version: self.yt_dlp_version.clone(),
            auto_update: self.auto_update,
        }
    }
}

/// A configuration read without the update flag updates automatically.
pub fn default_auto_update() -> (r: bool)
    ensures
        r == true,
{
    true
}

/// The default library root: the platform's audio directory when known,
/// else the music directory under the user's home, else the working
/// directory. The caller passes what the platform reported.
pub fn default_library_path(audio_dir: Option<String>, home_music_dir: Option<String>) -> (r:
    String)
    ensures
        audio_dir matches Some(a) ==> r@ == a@,
        audio_dir is None ==> (home_music_dir matches Some(h) ==> r@ == h@),
        audio_dir is None && home_music_dir is None ==> r@ == "."@,
{
    match audio_dir {
        Some(a) => a,
        None => match home_music_dir {
            Some(h) => h,
            None => String::from_str("."),
        },
    }
}

impl Config {
    /// The configuration used when none was saved yet.
    pub fn initial(library_path: String) -> (c: Config)
        ensures
            c@.library_path == library_path@,
            c@.yt_dlp_version == "2026.02.04"@,
            c@.auto_update == true,
    {
        Config {
            library_path,
            yt_dlp_version: String::from_str("2026.02.04"),
            auto_update: true,
        }
    }
}

} // verus!
