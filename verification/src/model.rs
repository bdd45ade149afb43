//! The catalogue records the player shows and searches over.

use vstd::prelude::*;

verus! {

/// A track as the catalogue describes it.
pub struct Track {
    /// The provider's id, when the track can be opened on its own.
    pub id: Option<String>,
    pub name: String,
    /// The credited artists, already joined for display.
    pub artists: String,
    pub album: String,
    pub cover: Option<String>,
}

/// An album as the catalogue describes it.
pub struct Album {
    pub id: String,
    pub name: String,
    /// The credited artists, already joined for display.
    pub artists: String,
    pub cover: Option<String>,
}

/// An artist, with the part of the page that lists their work.
pub struct Artist {
    pub id: Option<String>,
    pub name: String,
    pub cover: Option<String>,
    pub top_tracks: Vec<Track>,
    pub albums: Vec<Album>,
}

/// A playlist as the catalogue describes it.
pub struct Playlist {
    pub id: String,
    pub name: String,
    pub owner: String,
    pub cover: Option<String>,
}

/// The rest of an artist's page, fetched after the overview: the whole discography and the
/// popular tracks only the discography can rank.
pub struct ArtistCatalogue {
    pub albums: Vec<Album>,
    pub top_tracks: Vec<Track>,
}

impl ArtistCatalogue {
    /// Neither list has anything in it.
    pub open spec fn has_nothing(&self) -> bool {
        self.albums@.len() == 0 && self.top_tracks@.len() == 0
    }

    pub fn is_empty(&self) -> (empty: bool)
        ensures
            empty == self.has_nothing(),
    {
        self.albums.len() == 0 && self.top_tracks.len() == 0
    }
}

/// The four kinds of search result, in the order the search bar lists them.
#[derive(PartialEq, Eq, Structural, Clone, Copy, Debug)]
pub enum Kind {
    Song,
    Artist,
    Album,
    Playlist,
}

/// One search result.
pub enum Hit {
    Song(Track),
    Artist(Artist),
    Album(Album),
    Playlist(Playlist),
}

impl Hit {
    pub open spec fn kind_of(self) -> Kind {
        match self {
            Hit::Song(_) => Kind::Song,
            Hit::Artist(_) => Kind::Artist,
            Hit::Album(_) => Kind::Album,
            Hit::Playlist(_) => Kind::Playlist,
        }
    }

    pub fn kind(&self) -> (kind: Kind)
        ensures
            kind == self.kind_of(),
    {
        match self {
            Hit::Song(_) => Kind::Song,
            Hit::Artist(_) => Kind::Artist,
            Hit::Album(_) => Kind::Album,
            Hit::Playlist(_) => Kind::Playlist,
        }
    }
}

/// A copy of an optional string.
pub fn copy_text(text: &Option<String>) -> (copy: Option<String>)
    ensures
        copy == *text,
{
    match text {
        Some(s) => Some(s.clone()),
        None => None,
    }
}

} // verus!
