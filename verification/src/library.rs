//! Records of the persistent media library, and the small pure helpers the
//! store's queries are built from. The store itself (SQL execution) is an
//! external collaborator; these types carry its rows.

use vstd::prelude::*;

verus! {

/// One committed media item.
pub struct Song {
    pub id: String,
    pub title: String,
    pub artist: String,
    pub album: Option<String>,
    pub filename: String,
}

/// Mathematical image of [`Song`].
pub ghost struct SongView {
    pub id: Seq<char>,
    pub title: Seq<char>,
    pub artist: Seq<char>,
    pub album: Option<Seq<char>>,
    pub filename: Seq<char>,
}

impl View for Song {
    type V = SongView;

    open spec fn view(&self) -> SongView {
        SongView {
            id: self.id@,
            title: self.title@,
            artist: self.artist@,
            album: self.album.deep_view(),
            filename: self.filename@,
        }
    }
}

impl DeepView for Song {
    type V = SongView;

    open spec fn deep_view(&self) -> SongView {
        self.view()
    }
}

/// A named collection of songs.
pub struct Playlist {
    pub id: String,
    pub name: String,
}

impl View for Playlist {
    type V = (Seq<char>, Seq<char>);

    open spec fn view(&self) -> (Seq<char>, Seq<char>) {
        (self.id@, self.name@)
    }
}

/// The pattern handed to the store's substring search for `query`:
/// the query wrapped in wildcard signs.
pub fn search_pattern(query: &str) -> (r: String)
    ensures
        r@ == "%"@ + query@ + "%"@,
{
    let mut s = String::from_str("%");
    s.append(query);
    s.append("%");
    s
}

} // verus!
