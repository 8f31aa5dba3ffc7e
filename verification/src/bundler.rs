//! Decisions behind resolving the bundled helper tools: whether an
//! installed binary is current, which archive to fetch for the platform,
//! and how archive entries map to files. Downloading, unpacking and
//! setting permissions happen outside; every choice those steps follow is
//! made here.

use vstd::prelude::*;

use crate::cmdline::Os;
use crate::text::{ends_with_spec, ends_with_str, str_eq, trim, trim_spec};

verus! {

/// The processor architecture the archive is picked for.
#[derive(Clone, Copy, Debug, PartialEq, Eq, Structural)]
pub enum Arch {
    X64,
    Aarch64,
}

/// The file name a tool's binary carries on the platform.
pub fn tool_binary_name(base: &str, os: Os) -> (r: String)
    ensures
        os == Os::Windows ==> r@ == base@ + ".exe"@,
        os != Os::Windows ==> r@ == base@,
{
    let mut s = base.to_owned();
    if matches!(os, Os::Windows) {
        s.append(".exe");
    }
    s
}

/// Is the installed tool current: the binary exists and the recorded
/// version, once trimmed, names the target version. Anything else calls
/// for a refresh.
pub fn version_current(binary_exists: bool, recorded: &Option<String>, target: &str) -> (r: bool)
    ensures
        r == (binary_exists && (recorded matches Some(v) && trim_spec(v@) == target@)),
{
    if !binary_exists {
        return false;
    }
    match recorded {
        Some(v) => str_eq(trim(v.as_str()), target),
        None => false,
    }
}

/// Download URL of the external downloader for one released version.
pub fn ytdlp_download_url(version: &str, os: Os) -> (r: String)
    ensures
        r@ == "https://github.com/yt-dlp/yt-dlp/releases/download/"@ + version@ + (match os {
            Os::Windows => "/yt-dlp.exe"@,
            Os::MacOs => "/yt-dlp_macos"@,
            Os::Linux => "/yt-dlp_linux"@,
        }),
{
    let mut s = String::from_str("https://github.com/yt-dlp/yt-dlp/releases/download/");
    s.append(version);
    match os {
        Os::Windows => s.append("/yt-dlp.exe"),
        Os::MacOs => s.append("/yt-dlp_macos"),
        Os::Linux => s.append("/yt-dlp_linux"),
    }
    s
}

/// `s` with every dot removed (`8.0` becomes `80`).
pub open spec fn strip_dots(s: Seq<char>) -> Seq<char>
    decreases s.len(),
{
    if s.len() == 0 {
        Seq::empty()
    } else if s.last() == '.' {
        strip_dots(s.drop_last())
    } else {
        strip_dots(s.drop_last()).push(s.last())
    }
}

/// Remove every dot from `s`.
pub fn remove_dots(s: &str) -> (r: String)
    ensures
        r@ == strip_dots(s@),
{
    let len = s.unicode_len();
    let mut out = String::new();
    let mut i: usize = 0;
    while i < len
        invariant
            len == s@.len(),
            i <= len,
            out@ =~= strip_dots(s@.subrange(0, i as int)),
        decreases len - i,
    {
        let ghost pre = s@.subrange(0, i as int);
        assert(s@.subrange(0, i + 1).drop_last() =~= pre);
        assert(s@.subrange(0, i + 1).last() == s@[i as int]);
        if s.get_char(i) != '.' {
            let piece = s.substring_char(i, i + 1);
            assert(piece@ =~= seq![s@[i as int]]);
            out.append(piece);
        }
        i += 1;
    }
    assert(s@.subrange(0, len as int) =~= s@);
    out
}

/// Download URL of the media converter: a static build per platform; the
/// build for the Mac encodes the version without dots and the processor.
pub fn ffmpeg_download_url(version: &str, os: Os, arch: Arch) -> (r: String)
    ensures
        os == Os::Windows ==> r@
            == "https://github.com/BtbN/FFmpeg-Builds/releases/download/latest/ffmpeg-master-latest-win64-gpl.zip"@,
        os == Os::Linux ==> r@
            == "https://github.com/BtbN/FFmpeg-Builds/releases/download/latest/ffmpeg-master-latest-linux64-gpl.tar.xz"@,
        os == Os::MacOs ==> r@ == "https://www.osxexperts.net/ffmpeg"@ + strip_dots(version@)
            + (if arch == Arch::Aarch64 {
            "arm"@
        } else {
            "intel"@
        }) + ".zip"@,
{
    match os {
        Os::Windows => String::from_str(
            "https://github.com/BtbN/FFmpeg-Builds/releases/download/latest/ffmpeg-master-latest-win64-gpl.zip",
        ),
        Os::Linux => String::from_str(
            "https://github.com/BtbN/FFmpeg-Builds/releases/download/latest/ffmpeg-master-latest-linux64-gpl.tar.xz",
        ),
        Os::MacOs => {
            let mut s = String::from_str("https://www.osxexperts.net/ffmpeg");
            let ver = remove_dots(version);
            s.append(ver.as_str());
            match arch {
                Arch::Aarch64 => s.append("arm"),
                Arch::X64 => s.append("intel"),
            }
            s.append(".zip");
            s
        },
    }
}

/// Download URL of the bundled script runtime for one released version.
pub fn bun_download_url(version: &str, os: Os, arch: Arch) -> (r: String)
    ensures
        r@ == "https://github.com/oven-sh/bun/releases/download/bun-v"@ + version@ + "/bun-"@
            + (match os {
            Os::Windows => "windows"@,
            Os::MacOs => "darwin"@,
            Os::Linux => "linux"@,
        }) + "-"@ + (if arch == Arch::Aarch64 {
            "aarch64"@
        } else {
            "x64"@
        }) + ".zip"@,
{
    let mut s = String::from_str("https://github.com/oven-sh/bun/releases/download/bun-v");
    s.append(version);
    s.append("/bun-");
    match os {
        Os::Windows => s.append("windows"),
        Os::MacOs => s.append("darwin"),
        Os::Linux => s.append("linux"),
    }
    s.append("-");
    match arch {
        Arch::Aarch64 => s.append("aarch64"),
        Arch::X64 => s.append("x64"),
    }
    s.append(".zip");
    s
}

/// Download URL of the solver-script archive for one released tag.
pub fn ejs_download_url(version: &str) -> (r: String)
    ensures
        r@ == "https://github.com/yt-dlp/ejs/archive/refs/tags/"@ + version@ + ".zip"@,
{
    let mut s = String::from_str("https://github.com/yt-dlp/ejs/archive/refs/tags/");
    s.append(version);
    s.append(".zip");
    s
}

/// The entry of an archive that holds the tool's binary: the first whose
/// name ends with the binary's file name.
pub fn find_binary_entry(names: &Vec<String>, binary: &str) -> (r: Option<usize>)
    ensures
        match r {
            Some(i) => i < names@.len() && ends_with_spec(names@[i as int]@, binary@) && forall|
                k: int,
            | 0 <= k < i ==> !ends_with_spec((#[trigger] names@[k])@, binary@),
            None => forall|k: int|
                0 <= k < names@.len() ==> !ends_with_spec((#[trigger] names@[k])@, binary@),
        },
{
    let n = names.len();
    let mut i: usize = 0;
    while i < n
        invariant
            n == names@.len(),
            i <= n,
            forall|k: int| 0 <= k < i ==> !ends_with_spec((#[trigger] names@[k])@, binary@),
        decreases n - i,
    {
        if ends_with_str(names[i].as_str(), binary) {
            return Some(i);
        }
        i += 1;
    }
    None
}

/// Index of the first slash in `s`, or `-1`.
pub open spec fn first_slash(s: Seq<char>) -> int
    decreases s.len(),
{
    if s.len() == 0 {
        -1
    } else if s.first() == '/' {
        0
    } else {
        let r = first_slash(s.drop_first());
        if r < 0 {
            -1
        } else {
            r + 1
        }
    }
}

proof fn lemma_first_slash(s: Seq<char>)
    ensures
        -1 <= first_slash(s) < s.len(),
        first_slash(s) >= 0 ==> s[first_slash(s)] == '/',
        forall|k: int| 0 <= k < first_slash(s) ==> s[k] != '/',
        first_slash(s) == -1 ==> forall|k: int| 0 <= k < s.len() ==> s[k] != '/',
    decreases s.len(),
{
    if s.len() > 0 && s.first() != '/' {
        let t = s.drop_first();
        lemma_first_slash(t);
        assert(forall|k: int| 0 <= k < t.len() ==> t[k] == s[k + 1]);
        assert(s[0] == s.first());
        if first_slash(t) == -1 {
            assert forall|k: int| 0 <= k < s.len() implies s[k] != '/' by {
                if k > 0 {
                    assert(t[k - 1] == s[k]);
                }
            }
        } else {
            assert forall|k: int| 0 <= k < first_slash(s) implies s[k] != '/' by {
                if k > 0 {
                    assert(t[k - 1] == s[k]);
                }
            }
        }
    }
}

/// Archive entries of a source archive live under one root directory;
/// the path of an entry relative to that root is everything past the first
/// slash. An entry without one (the root itself) maps to nothing, as does
/// an empty remainder.
pub fn strip_root_component(name: &str) -> (r: Option<String>)
    ensures
        ({
            let fs = first_slash(name@);
            if fs >= 0 && fs + 1 < name@.len() {
                r matches Some(rel) && rel@ == name@.subrange(fs + 1, name@.len() as int)
            } else {
                r is None
            }
        }),
{
    proof {
        lemma_first_slash(name@);
    }
    let len = name.unicode_len();
    let mut i: usize = 0;
    while i < len
        invariant
            len == name@.len(),
            i <= len,
            forall|k: int| 0 <= k < i ==> name@[k] != '/',
        decreases len - i,
    {
        if name.get_char(i) == '/' {
            proof {
                lemma_first_slash_prefix(name@, i as int);
            }
            if i + 1 < len {
                return Some(name.substring_char(i + 1, len).to_owned());
            } else {
                return None;
            }
        }
        i += 1;
    }
    proof {
        lemma_first_slash(name@);
        if first_slash(name@) >= 0 {
            assert(name@[first_slash(name@)] == '/');
        }
    }
    None
}

proof fn lemma_first_slash_prefix(s: Seq<char>, i: int)
    requires
        0 <= i < s.len(),
        s[i] == '/',
        forall|k: int| 0 <= k < i ==> s[k] != '/',
    ensures
        first_slash(s) == i,
    decreases s.len(),
{
    if i == 0 {
    } else {
        assert(s.first() != '/');
        let t = s.drop_first();
        assert(forall|k: int| 0 <= k < t.len() ==> t[k] == s[k + 1]);
        lemma_first_slash_prefix(t, i - 1);
    }
}

} // verus!
