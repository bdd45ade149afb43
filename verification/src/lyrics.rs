//! Lyrics for local files: an `.lrc` file beside the track wins, else what the file's own tags
//! carry. Any other track gets no answer.

use vstd::prelude::*;

use crate::model::copy_text;
use crate::text::{strip_byte_order_marks, without_leading_marks};

verus! {

/// The name local lyrics are reported under.
pub const LOCAL: &'static str = "local";

/// Wins a tie against most services without outranking a better kind of sheet.
pub const TRUST: u32 = 100;

/// One timed line of a lyrics sheet.
pub struct SyncedLine {
    /// When the line starts, in milliseconds from the start of the track.
    pub at_ms: u64,
    pub text: String,
}

/// A lyrics sheet.
pub enum Lyrics {
    /// Lines with the time each starts.
    Synced { lines: Vec<SyncedLine> },
    /// Text without timing.
    Plain { text: String },
}

/// The track a lyrics query is for.
pub struct QueryTrack {
    pub id: String,
}

/// What lyrics are asked for.
pub struct LyricsQuery {
    pub track: Option<QueryTrack>,
    pub title: String,
    pub artist: String,
    pub album: Option<String>,
    /// The track's length, in milliseconds.
    pub duration: u64,
}

/// A lyrics sheet one source offers for a query.
pub struct LyricsHit {
    pub source: &'static str,
    pub trust: u32,
    pub lyrics: Lyrics,
    pub instrumental: bool,
    pub title: String,
    pub artist: String,
    pub album: Option<String>,
    pub duration: Option<u64>,
    pub writers: Vec<String>,
}

/// Reads the lyrics of local files.
pub struct LocalLyrics;

/// `hit` is what local lyrics answer `query` with when they found `lyrics`: the sheet under
/// the local name and trust, with the query's title, artist, album and length.
pub open spec fn is_local_hit(hit: LyricsHit, query: LyricsQuery, lyrics: Lyrics) -> bool {
    &&& hit.source@ == LOCAL@
    &&& hit.trust == TRUST
    &&& hit.lyrics == lyrics
    &&& !hit.instrumental
    &&& hit.title == query.title
    &&& hit.artist == query.artist
    &&& hit.album == query.album
    &&& hit.duration == Some(query.duration)
    &&& hit.writers@.len() == 0
}

impl LocalLyrics {
    /// The name the source reports under.
    pub fn name(&self) -> (name: &'static str)
        ensures
            name@ == LOCAL@,
    {
        LOCAL
    }

    /// The answer to `query` given what reading its track gave: `None` when the track is not a
    /// local file, else the result of `read` on its path. A query that names no track gets no
    /// answer, whatever was read. A found sheet makes one hit; no sheet makes none; a failed
    /// read is the answer's error.
    pub fn search<E>(&self, query: &LyricsQuery, found: Option<Result<Option<Lyrics>, E>>) -> (answer:
        Result<Vec<LyricsHit>, E>)
        ensures
            query.track is None ==> (answer matches Ok(hits) && hits@.len() == 0),
            query.track is Some ==> match found {
                None => answer matches Ok(hits) && hits@.len() == 0,
                Some(Err(e)) => answer == Err::<Vec<LyricsHit>, E>(e),
                Some(Ok(None)) => answer matches Ok(hits) && hits@.len() == 0,
                Some(Ok(Some(lyrics))) => answer matches Ok(hits) && hits@.len() == 1 && is_local_hit(
                    hits@[0],
                    *query,
                    lyrics,
                ),
            },
    {
        if query.track.is_none() {
            return Ok(Vec::new());
        }
        let lyrics = match found {
            None => return Ok(Vec::new()),
            Some(Err(e)) => return Err(e),
            Some(Ok(None)) => return Ok(Vec::new()),
            Some(Ok(Some(lyrics))) => lyrics,
        };
        let mut hits: Vec<LyricsHit> = Vec::new();
        hits.push(
            LyricsHit {
                source: LOCAL,
                trust: TRUST,
                lyrics,
                instrumental: false,
                title: query.title.clone(),
                artist: query.artist.clone(),
                album: copy_text(&query.album),
                duration: Some(query.duration),
                writers: Vec::new(),
            },
        );
        Ok(hits)
    }
}

/// The lyrics of a local file: the sheet beside it when there is one, else what `tags` reads
/// from the file's own tags. The tags are read only when there is no sheet beside the file.
pub fn read<E, F: FnOnce() -> Result<Option<Lyrics>, E>>(sidecar: Option<Lyrics>, tags: F) -> (lyrics:
    Result<Option<Lyrics>, E>)
    requires
        sidecar is None ==> call_requires(tags, ()),
    ensures
        sidecar is Some ==> lyrics == Ok::<Option<Lyrics>, E>(sidecar),
        sidecar is None ==> call_ensures(tags, (), lyrics),
{
    match sidecar {
        Some(found) => Ok(Some(found)),
        None => tags(),
    }
}

/// The extensions a lyrics file beside the track may carry, in the order they are tried.
/// Linux filesystems tell the two apart.
pub open spec fn sidecar_extension_at(attempt: int) -> Option<Seq<char>> {
    if attempt == 0 {
        Some("lrc"@)
    } else if attempt == 1 {
        Some("LRC"@)
    } else {
        None
    }
}

/// The extension of the `attempt`-th file to try beside the track, if there is one.
pub fn sidecar_extension(attempt: usize) -> (extension: Option<&'static str>)
    ensures
        match sidecar_extension_at(attempt as int) {
            Some(e) => extension matches Some(x) && x@ == e,
            None => extension is None,
        },
{
    if attempt == 0 {
        Some("lrc")
    } else if attempt == 1 {
        Some("LRC")
    } else {
        None
    }
}

/// What reading one file beside the track gave.
pub enum ReadOutcome {
    Text(String),
    /// There is no such file.
    Missing,
    /// The file is there but could not be read; the reader has reported why.
    Unreadable,
}

/// What to do next while looking for the lyrics file beside a track.
pub enum SidecarStep {
    /// Read the file with this extension, the `attempt`-th tried.
    Read { attempt: usize, extension: &'static str },
    /// Parse this text as timed lyrics.
    Parse(String),
    /// No file beside the track could be read.
    NoSidecar,
}

/// The first file to try.
pub fn sidecar_start() -> (step: SidecarStep)
    ensures
        step matches SidecarStep::Read { attempt, extension } && attempt == 0 && extension@
            == "lrc"@,
{
    SidecarStep::Read { attempt: 0, extension: "lrc" }
}

/// The step after reading the `attempt`-th file. Read text is parsed without the byte order
/// marks at its start; a missing or unreadable file moves on to the next extension, and after
/// the last one there is no sheet beside the track.
pub fn sidecar_next(attempt: usize, outcome: ReadOutcome) -> (step: SidecarStep)
    ensures
        match outcome {
            ReadOutcome::Text(text) => (step matches SidecarStep::Parse(t) && t@ == without_leading_marks(text@)),
            _ => match sidecar_extension_at(attempt + 1) {
                Some(e) => (step matches SidecarStep::Read { attempt: a, extension } && a == attempt + 1 && extension@ == e),
                None => step is NoSidecar,
            },
        },
{
    match outcome {
        ReadOutcome::Text(text) => SidecarStep::Parse(strip_byte_order_marks(text.as_str()).to_owned()),
        _ => {
            if attempt >= 1 {
                return SidecarStep::NoSidecar;
            }
            match sidecar_extension(attempt + 1) {
                Some(extension) => SidecarStep::Read { attempt: attempt + 1, extension },
                None => SidecarStep::NoSidecar,
            }
        },
    }
}

/// The lyrics a parsed sheet gives: its timed lines, or none when it holds no valid line.
pub fn sidecar_lyrics(lines: Vec<SyncedLine>) -> (lyrics: Option<Lyrics>)
    ensures
        lines@.len() == 0 ==> lyrics is None,
        lines@.len() > 0 ==> (lyrics matches Some(Lyrics::Synced { lines: l }) && l == lines),
{
    if lines.len() == 0 {
        None
    } else {
        Some(Lyrics::Synced { lines })
    }
}

} // verus!
