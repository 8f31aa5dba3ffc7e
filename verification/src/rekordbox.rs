//! The export document for DJ software: the library rendered as one XML
//! collection. The whole text is specified character by character, so the
//! caller only writes the returned string to disk.

use vstd::prelude::*;

use crate::library::{Song, SongView};
use crate::text::{dec_rep, u64_to_string};

verus! {

/// The replacement text of one character inside an attribute value.
pub open spec fn esc_char(c: char) -> Seq<char> {
    if c == '&' {
        "&amp;"@
    } else if c == '<' {
        "&lt;"@
    } else if c == '>' {
        "&gt;"@
    } else if c == '"' {
        "&quot;"@
    } else if c == '\'' {
        "&apos;"@
    } else {
        seq![c]
    }
}

/// `s` with every markup character replaced by its entity.
pub open spec fn xml_escape(s: Seq<char>) -> Seq<char>
    decreases s.len(),
{
    if s.len() == 0 {
        Seq::empty()
    } else {
        xml_escape(s.drop_last()) + esc_char(s.last())
    }
}

/// Escape `s` for use inside an attribute value.
pub fn escape_xml(s: &str) -> (r: String)
    ensures
        r@ == xml_escape(s@),
{
    let len = s.unicode_len();
    let mut out = String::new();
    let mut i: usize = 0;
    while i < len
        invariant
            len == s@.len(),
            i <= len,
            out@ =~= xml_escape(s@.subrange(0, i as int)),
        decreases len - i,
    {
        let ghost pre = s@.subrange(0, i as int);
        assert(s@.subrange(0, i + 1).drop_last() =~= pre);
        assert(s@.subrange(0, i + 1).last() == s@[i as int]);
        let c = s.get_char(i);
        if c == '&' {
            out.append("&amp;");
        } else if c == '<' {
            out.append("&lt;");
        } else if c == '>' {
            out.append("&gt;");
        } else if c == '"' {
            out.append("&quot;");
        } else if c == '\'' {
            out.append("&apos;");
        } else {
            let piece = s.substring_char(i, i + 1);
            assert(piece@ =~= seq![s@[i as int]]);
            out.append(piece);
        }
        i += 1;
    }
    assert(s@.subrange(0, len as int) =~= s@);
    out
}

/// One attribute as written inside a tag: a space, the name, and the
/// escaped value in quotes.
pub open spec fn attr(name: Seq<char>, value: Seq<char>) -> Seq<char> {
    " "@ + name + "=\""@ + xml_escape(value) + "\""@
}

fn append_attr(out: &mut String, name: &str, value: &str)
    ensures
        final(out)@ == old(out)@ + attr(name@, value@),
{
    out.append(" ");
    out.append(name);
    out.append("=\"");
    let escaped = escape_xml(value);
    out.append(escaped.as_str());
    out.append("\"");
    assert(final(out)@ =~= old(out)@ + attr(name@, value@));
}

/// Where a song's file lives, as the document's file URI.
pub open spec fn location_of(library_path: Seq<char>, filename: Seq<char>) -> Seq<char> {
    "file://localhost"@ + library_path + "/Songs/"@ + filename
}

/// One track element of the collection.
pub open spec fn track_xml(song: SongView, library_path: Seq<char>) -> Seq<char> {
    "    <TRACK"@ + attr("TrackID"@, song.id) + attr("Name"@, song.title) + attr(
        "Artist"@,
        song.artist,
    ) + (match song.album {
        Some(a) => attr("Album"@, a),
        None => Seq::empty(),
    }) + attr("Kind"@, "MP3 File"@) + attr("Location"@, location_of(library_path, song.filename))
        + "/>\n"@
}

/// All track elements, in library order.
pub open spec fn tracks_xml(songs: Seq<SongView>, library_path: Seq<char>) -> Seq<char>
    decreases songs.len(),
{
    if songs.len() == 0 {
        Seq::empty()
    } else {
        tracks_xml(songs.drop_last(), library_path) + track_xml(songs.last(), library_path)
    }
}

/// The whole export document for a library of `songs` rooted at
/// `library_path`.
pub open spec fn document_xml(songs: Seq<SongView>, library_path: Seq<char>) -> Seq<char> {
    "<?xml version=\"1.0\" encoding=\"UTF-8\"?>\n<DJ_PLAYLISTS Version=\"1.0.0\">\n  <PRODUCT Name=\"Cue\" Version=\"0.1.0\" Company=\"Cue\"/>\n  <COLLECTION Entries=\""@
        + dec_rep(songs.len()) + "\">\n"@ + tracks_xml(songs, library_path)
        + "  </COLLECTION>\n  <PLAYLISTS>\n  </PLAYLISTS>\n</DJ_PLAYLISTS>"@
}

fn append_track(out: &mut String, song: &Song, library_path: &str)
    ensures
        final(out)@ == old(out)@ + track_xml(song@, library_path@),
{
    out.append("    <TRACK");
    append_attr(out, "TrackID", song.id.as_str());
    append_attr(out, "Name", song.title.as_str());
    append_attr(out, "Artist", song.artist.as_str());
    match &song.album {
        Some(a) => append_attr(out, "Album", a.as_str()),
        None => {
        },
    }
    append_attr(out, "Kind", "MP3 File");
    let mut location = String::from_str("file://localhost");
    location.append(library_path);
    location.append("/Songs/");
    location.append(song.filename.as_str());
    assert(location@ =~= location_of(library_path@, song@.filename));
    append_attr(out, "Location", location.as_str());
    out.append("/>\n");
    assert(final(out)@ =~= old(out)@ + track_xml(song@, library_path@));
}

/// Render the whole export document for `songs` rooted at `library_path`.
pub fn export_xml(songs: &Vec<Song>, library_path: &str) -> (r: String)
    ensures
        r@ == document_xml(songs.deep_view(), library_path@),
{
    let ghost views = songs.deep_view();
    let mut out = String::from_str(
        "<?xml version=\"1.0\" encoding=\"UTF-8\"?>\n<DJ_PLAYLISTS Version=\"1.0.0\">\n  <PRODUCT Name=\"Cue\" Version=\"0.1.0\" Company=\"Cue\"/>\n  <COLLECTION Entries=\"",
    );
    let count = u64_to_string(songs.len() as u64);
    out.append(count.as_str());
    out.append("\">\n");
    let ghost header = out@;
    let n = songs.len();
    let mut i: usize = 0;
    while i < n
        invariant
            n == songs@.len(),
            views == songs.deep_view(),
            i <= n,
            library_path@ == library_path@,
            out@ =~= header + tracks_xml(views.subrange(0, i as int), library_path@),
        decreases n - i,
    {
        let ghost pre = views.subrange(0, i as int);
        assert(views.subrange(0, i + 1).drop_last() =~= pre);
        assert(views.subrange(0, i + 1).last() == views[i as int]);
        assert(views[i as int] == songs@[i as int]@);
        append_track(&mut out, &songs[i], library_path);
        i += 1;
    }
    assert(views.subrange(0, n as int) =~= views);
    out.append("  </COLLECTION>\n  <PLAYLISTS>\n  </PLAYLISTS>\n</DJ_PLAYLISTS>");
    assert(out@ =~= document_xml(views, library_path@));
    out
}

} // verus!
