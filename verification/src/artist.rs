//! The artist page: which artist it shows, whether the overview or the rest of the page is
//! still on its way, and how replies, sign-in changes and hidden tracks change it.

use vstd::prelude::*;

use crate::model::{copy_text, Album, Artist, ArtistCatalogue, Track};

verus! {

/// The text of an optional string.
pub open spec fn text_of(text: Option<String>) -> Option<Seq<char>> {
    match text {
        Some(s) => Some(s@),
        None => None,
    }
}

/// What the artist page holds, as plain values.
pub struct ArtistDetailView {
    /// The artist the page is for.
    pub id: Option<Seq<char>>,
    /// The artist, once known.
    pub artist: Option<Artist>,
    /// The number of the overview request the page waits on.
    pub request: Option<u64>,
    /// Why the overview could not be had.
    pub error: Option<Seq<char>>,
    /// The number of the catalogue request the page waits on, after the overview.
    pub fill_request: Option<u64>,
    /// How many requests the page has numbered; the next one gets this number.
    pub issued: u64,
    /// Every `u64` has been used as a request number, `u64::MAX` last: the page numbers no
    /// more requests.
    pub exhausted: bool,
}

impl ArtistDetailView {
    /// The page has handed out number `t`.
    pub open spec fn numbered(self, t: u64) -> bool {
        t < self.issued || (self.exhausted && t == u64::MAX)
    }

    /// The overview is on its way.
    pub open spec fn loading(self) -> bool {
        self.request is Some
    }

    /// The discography is on its way after the overview.
    pub open spec fn filling(self) -> bool {
        self.fill_request is Some
    }

    /// How the page's parts hang together: an overview on its way leaves no artist and no
    /// error; the discography is only fetched for a shown artist; an error replaces the
    /// artist; whatever the page shows belongs to an id; the requests it waits on carry
    /// numbers it handed out.
    pub open spec fn consistent(self) -> bool {
        &&& self.request matches Some(t) ==> self.numbered(t)
        &&& self.fill_request matches Some(t) ==> self.numbered(t)
        &&& self.loading() ==> self.artist is None && self.error is None && self.id is Some
        &&& self.filling() ==> self.artist is Some
        &&& self.error is Some ==> self.artist is None && self.id is Some
        &&& self.artist is Some ==> self.id is Some
    }
}

/// A new page: nothing on it, no number handed out.
pub open spec fn new_page() -> ArtistDetailView {
    ArtistDetailView {
        id: None,
        artist: None,
        request: None,
        error: None,
        fill_request: None,
        issued: 0,
        exhausted: false,
    }
}

/// The page emptied: nothing on it, no request waited on, its numbering kept.
pub open spec fn emptied(page: ArtistDetailView) -> ArtistDetailView {
    ArtistDetailView {
        id: None,
        artist: None,
        request: None,
        error: None,
        fill_request: None,
        ..page
    }
}

/// The page after handing out number `page.issued`, which it can while not exhausted.
pub open spec fn after_numbering(page: ArtistDetailView) -> ArtistDetailView {
    if page.issued < u64::MAX {
        ArtistDetailView { issued: (page.issued + 1) as u64, ..page }
    } else {
        ArtistDetailView { exhausted: true, ..page }
    }
}

/// A request the page numbered and no longer waits on never becomes one it waits on again;
/// the numbers handed out stay handed out.
pub open spec fn dropped_stay_dropped(before: ArtistDetailView, after: ArtistDetailView) -> bool {
    &&& before.issued <= after.issued
    &&& before.exhausted ==> after.exhausted
    &&& forall|t: u64|
        #[trigger] before.numbered(t) && before.request != Some(t) ==> after.request != Some(t)
    &&& forall|t: u64|
        #[trigger] before.numbered(t) && before.fill_request != Some(t) ==> after.fill_request
            != Some(t)
}

/// The artist page's state.
pub struct ArtistDetail {
    id: Option<String>,
    artist: Option<Artist>,
    request: Option<u64>,
    error: Option<String>,
    fill_request: Option<u64>,
    issued: u64,
    exhausted: bool,
}

/// Swaps `tracks` with the popular tracks of the artist in `slot`, if there is one.
fn swap_tracks(slot: &mut Option<Artist>, tracks: &mut Vec<Track>)
    ensures
        match *old(slot) {
            None => *final(slot) == *old(slot) && *final(tracks) == *old(tracks),
            Some(a) => *final(slot) == Some(Artist { top_tracks: *old(tracks), ..a })
                && *final(tracks) == a.top_tracks,
        },
    no_unwind
{
    match slot {
        Some(artist) => std::mem::swap(tracks, &mut artist.top_tracks),
        None => {},
    }
}

/// Swaps `albums` with the albums of the artist in `slot`, if there is one.
fn swap_albums(slot: &mut Option<Artist>, albums: &mut Vec<Album>)
    ensures
        match *old(slot) {
            None => *final(slot) == *old(slot) && *final(albums) == *old(albums),
            Some(a) => *final(slot) == Some(Artist { albums: *old(albums), ..a })
                && *final(albums) == a.albums,
        },
    no_unwind
{
    match slot {
        Some(artist) => std::mem::swap(albums, &mut artist.albums),
        None => {},
    }
}

impl ArtistDetail {
    /// The page's parts hang together.
    #[verifier::type_invariant]
    spec fn hangs_together(self) -> bool {
        self@.consistent()
    }
}

impl View for ArtistDetail {
    type V = ArtistDetailView;

    closed spec fn view(&self) -> ArtistDetailView {
        ArtistDetailView {
            id: text_of(self.id),
            artist: self.artist,
            request: self.request,
            error: text_of(self.error),
            fill_request: self.fill_request,
            issued: self.issued,
            exhausted: self.exhausted,
        }
    }
}

/// What the session's catalogue has for an artist when the page opens.
pub enum ArtistLookup {
    /// No catalogue serves this id (no one is signed in to its provider).
    NoCatalog,
    /// The catalogue already holds the artist.
    Cached(Artist),
    /// The catalogue has to ask its provider.
    Remote,
}

/// What opening the page leads to.
#[derive(PartialEq, Eq, Structural, Clone, Copy, Debug)]
pub enum OpenStep {
    /// The page already shows or loads this artist: nothing changes.
    Unchanged,
    /// No catalogue serves the id: the page stays empty under it.
    NoCatalog,
    /// The cached artist is up: the rest of the page is to be filled.
    Shown,
    /// The overview is to be fetched; its reply is to come back with this request number.
    Loading(u64),
    /// The page has handed out every request number: no request starts and the page stays
    /// empty under the id.
    OutOfNumbers,
}

/// What the catalogue has for the rest of an artist's page.
pub enum CatalogueLookup {
    NoCatalog,
    Cached(ArtistCatalogue),
    Remote,
}

/// What filling the page leads to.
#[derive(PartialEq, Eq, Structural, Clone, Copy, Debug)]
pub enum FillStep {
    /// There is no artist up, no catalogue, or no request number left: nothing to fill.
    Skipped,
    /// The cached catalogue went onto the page.
    Absorbed,
    /// The catalogue is to be fetched; its reply is to come back with this request number.
    Filling(u64),
}

/// A change in who is signed in.
#[derive(PartialEq, Eq, Structural, Clone, Copy, Debug)]
pub enum SessionEvent {
    SignedIn,
    SignedOut,
    Reconnected,
    LocalChanged,
}

/// What the page does about a session change.
pub enum SessionReaction {
    Nothing,
    /// The page was emptied and wants to be drawn again.
    Notify,
    /// The page was emptied and this artist is to be opened again.
    Reopen(String),
}

/// An artist with the catalogue put over it: a non-empty list replaces the one the overview
/// carried, an empty one leaves it alone.
pub open spec fn absorbed_artist(a: Artist, catalogue: ArtistCatalogue) -> Artist {
    Artist {
        id: a.id,
        name: a.name,
        cover: a.cover,
        top_tracks: if catalogue.top_tracks@.len() > 0 {
            catalogue.top_tracks
        } else {
            a.top_tracks
        },
        albums: if catalogue.albums@.len() > 0 {
            catalogue.albums
        } else {
            a.albums
        },
    }
}

/// The page's artist after absorbing a catalogue: unchanged when there is no artist or the
/// catalogue is empty.
pub open spec fn absorbed(artist: Option<Artist>, catalogue: ArtistCatalogue) -> Option<Artist> {
    match artist {
        None => None,
        Some(a) => if catalogue.has_nothing() {
            Some(a)
        } else {
            Some(absorbed_artist(a, catalogue))
        },
    }
}

/// A track is hidden when it has an id and that id is among `ids`.
pub open spec fn is_hidden(track: Track, ids: Seq<String>) -> bool {
    track.id matches Some(id) && exists|k: int| 0 <= k < ids.len() && (#[trigger] ids[k])@ == id@
}

/// The tracks that are not hidden, in their order.
pub open spec fn visible_tracks(tracks: Seq<Track>, ids: Seq<String>) -> Seq<Track>
    decreases tracks.len(),
{
    if tracks.len() == 0 {
        Seq::empty()
    } else {
        let before = visible_tracks(tracks.drop_last(), ids);
        if is_hidden(tracks.last(), ids) {
            before
        } else {
            before.push(tracks.last())
        }
    }
}

fn contains_id(ids: &Vec<String>, id: &String) -> (found: bool)
    ensures
        found == exists|k: int| 0 <= k < ids@.len() && (#[trigger] ids@[k])@ == id@,
{
    let mut k: usize = 0;
    while k < ids.len()
        invariant
            k <= ids@.len(),
            forall|j: int| 0 <= j < k ==> (#[trigger] ids@[j])@ != id@,
        decreases ids@.len() - k,
    {
        if ids[k] == *id {
            return true;
        }
        k = k + 1;
    }
    false
}

fn hidden(track: &Track, ids: &Vec<String>) -> (result: bool)
    ensures
        result == is_hidden(*track, ids@),
{
    match &track.id {
        Some(id) => contains_id(ids, id),
        None => false,
    }
}

/// Removes, in place, the tracks whose id is among `ids`.
fn retain_visible(tracks: &mut Vec<Track>, ids: &Vec<String>)
    ensures
        final(tracks)@ == visible_tracks(old(tracks)@, ids@),
{
    let ghost all = tracks@;
    let total = tracks.len();
    let mut i: usize = 0;
    let mut j: usize = 0;
    proof {
        assert(all.take(0) =~= Seq::<Track>::empty());
        assert(all.skip(0) =~= all);
    }
    while i < tracks.len()
        invariant
            j <= all.len(),
            all.len() == total,
            tracks@ == visible_tracks(all.take(j as int), ids@) + all.skip(j as int),
            i == visible_tracks(all.take(j as int), ids@).len(),
        decreases all.len() - j,
    {
        proof {
            assert(all.take(j + 1).drop_last() =~= all.take(j as int));
            assert(all.take(j + 1).last() == all[j as int]);
            assert(tracks@[i as int] == all[j as int]);
        }
        if hidden(&tracks[i], ids) {
            tracks.remove(i);
            proof {
                assert(tracks@ =~= visible_tracks(all.take(j + 1), ids@) + all.skip(j + 1));
            }
        } else {
            proof {
                assert(tracks@ =~= visible_tracks(all.take(j + 1), ids@) + all.skip(j + 1));
            }
            i = i + 1;
        }
        j = j + 1;
    }
    proof {
        assert(all.skip(j as int) =~= Seq::<Track>::empty());
        assert(all.take(j as int) =~= all);
        assert(tracks@ =~= visible_tracks(all, ids@));
    }
}

/// Over any run of calls, a request the page numbered and then stopped waiting on is never
/// waited on again: the property each call keeps carries over a sequence of calls.
pub proof fn law_dropped_stay_dropped_over_calls(
    first: ArtistDetailView,
    middle: ArtistDetailView,
    last: ArtistDetailView,
)
    requires
        dropped_stay_dropped(first, middle),
        dropped_stay_dropped(middle, last),
    ensures
        dropped_stay_dropped(first, last),
{
    assert forall|t: u64| #[trigger] first.numbered(t) implies middle.numbered(t) by {}
    assert forall|t: u64| #[trigger] first.numbered(t) && first.request != Some(t) implies last.request
        != Some(t) by {
        assert(middle.numbered(t));
    }
    assert forall|t: u64| #[trigger] first.numbered(t) && first.fill_request != Some(t) implies last.fill_request
        != Some(t) by {
        assert(middle.numbered(t));
    }
}

/// A reply to a request the page stopped waiting on is never heard, however many calls come
/// after: once `number` is no longer the request waited on, it never is again, and the
/// replies `artist_loaded` and `catalogue_loaded` hear are exactly those to the request waited
/// on.
pub proof fn law_dropped_request_never_heard(
    waiting: ArtistDetailView,
    dropped: ArtistDetailView,
    later: ArtistDetailView,
    number: u64,
)
    requires
        waiting.consistent(),
        waiting.request == Some(number) || waiting.fill_request == Some(number),
        dropped_stay_dropped(waiting, dropped),
        dropped_stay_dropped(dropped, later),
    ensures
        dropped.request != Some(number) ==> later.request != Some(number),
        dropped.fill_request != Some(number) ==> later.fill_request != Some(number),
{
    assert(waiting.numbered(number));
    assert(dropped.numbered(number));
}

/// Each non-empty list of a catalogue replaces the one the artist had, whatever the other list
/// holds; an empty list keeps the artist's own; the artist's id, name and cover stay.
pub proof fn law_absorb_replaces_each_nonempty_list(a: Artist, catalogue: ArtistCatalogue)
    ensures
        absorbed(Some(a), catalogue) matches Some(b) && {
            &&& b.id == a.id
            &&& b.name == a.name
            &&& b.cover == a.cover
            &&& catalogue.top_tracks@.len() > 0 ==> b.top_tracks == catalogue.top_tracks
            &&& catalogue.top_tracks@.len() == 0 ==> b.top_tracks == a.top_tracks
            &&& catalogue.albums@.len() > 0 ==> b.albums == catalogue.albums
            &&& catalogue.albums@.len() == 0 ==> b.albums == a.albums
        },
        absorbed(None, catalogue) is None,
{
}

/// A track is hidden exactly when it has an id and that id is one of `ids`, wherever it
/// stands among them; a track without an id is never hidden.
pub proof fn law_hidden_when_id_listed(track: Track, ids: Seq<String>)
    ensures
        track.id is None ==> !is_hidden(track, ids),
        forall|k: int|
            0 <= k < ids.len() && (track.id matches Some(id) && (#[trigger] ids[k])@ == id@)
                ==> is_hidden(track, ids),
        is_hidden(track, ids) ==> (track.id matches Some(id) && ids.map_values(
            |s: String| s@,
        ).contains(id@)),
{
    if is_hidden(track, ids) {
        let id = track.id.unwrap();
        let k = choose|k: int| 0 <= k < ids.len() && (#[trigger] ids[k])@ == id@;
        assert(ids.map_values(|s: String| s@)[k] == id@);
    }
}

/// Hiding tracks leaves none whose id is among the hidden ids, and keeps every track whose
/// id is not among them.
pub proof fn law_no_listed_track_stays(tracks: Seq<Track>, ids: Seq<String>)
    ensures
        forall|j: int, k: int|
            0 <= j < visible_tracks(tracks, ids).len() && 0 <= k < ids.len() ==> !(#[trigger] visible_tracks(
                tracks,
                ids,
            )[j].id matches Some(id) && (#[trigger] ids[k])@ == id@),
        forall|i: int|
            0 <= i < tracks.len() && (forall|k: int|
                0 <= k < ids.len() ==> !(#[trigger] tracks[i].id matches Some(id) && (#[trigger] ids[k])@ == id@))
                ==> visible_tracks(tracks, ids).contains(tracks[i]),
{
    law_hidden_tracks_leave(tracks, ids);
    let v = visible_tracks(tracks, ids);
    assert forall|j: int, k: int|
        0 <= j < v.len() && 0 <= k < ids.len() implies !(#[trigger] v[j].id matches Some(id) && (#[trigger] ids[k])@
            == id@) by {
        law_hidden_when_id_listed(v[j], ids);
    }
    assert forall|i: int|
        0 <= i < tracks.len() && (forall|k: int|
            0 <= k < ids.len() ==> !(#[trigger] tracks[i].id matches Some(id) && (#[trigger] ids[k])@ == id@))
            implies v.contains(tracks[i]) by {
        if is_hidden(tracks[i], ids) {
            let id = tracks[i].id.unwrap();
            let k = choose|k: int| 0 <= k < ids.len() && (#[trigger] ids[k])@ == id@;
            assert(!(tracks[i].id matches Some(x) && ids[k]@ == x@));
        }
    }
}

/// An empty catalogue leaves the page's artist as it was.
pub proof fn law_empty_catalogue_changes_nothing(artist: Option<Artist>, catalogue: ArtistCatalogue)
    requires
        catalogue.has_nothing(),
    ensures
        absorbed(artist, catalogue) == artist,
{
}

/// Putting the same catalogue over the page twice gives what putting it once gave.
pub proof fn law_absorb_twice(artist: Option<Artist>, catalogue: ArtistCatalogue)
    ensures
        absorbed(absorbed(artist, catalogue), catalogue) == absorbed(artist, catalogue),
{
}

/// Hiding tracks drops exactly the hidden ones: no kept track is hidden, every track that is
/// not hidden is kept, and a list with nothing hidden in it stays as it is.
pub proof fn law_hidden_tracks_leave(tracks: Seq<Track>, ids: Seq<String>)
    ensures
        forall|j: int|
            0 <= j < visible_tracks(tracks, ids).len() ==> !is_hidden(
                #[trigger] visible_tracks(tracks, ids)[j],
                ids,
            ),
        forall|i: int|
            0 <= i < tracks.len() && !is_hidden(#[trigger] tracks[i], ids) ==> visible_tracks(
                tracks,
                ids,
            ).contains(tracks[i]),
        (forall|i: int| 0 <= i < tracks.len() ==> !is_hidden(#[trigger] tracks[i], ids))
            ==> visible_tracks(tracks, ids) == tracks,
    decreases tracks.len(),
{
    if tracks.len() > 0 {
        let before = tracks.drop_last();
        law_hidden_tracks_leave(before, ids);
        let v = visible_tracks(tracks, ids);
        let vb = visible_tracks(before, ids);
        assert forall|i: int|
            0 <= i < tracks.len() && !is_hidden(#[trigger] tracks[i], ids) implies v.contains(
            tracks[i],
        ) by {
            if i < tracks.len() - 1 {
                assert(before[i] == tracks[i]);
                let a = choose|a: int| 0 <= a < vb.len() && vb[a] == before[i];
                assert(v[a] == vb[a]);
            } else {
                assert(v[v.len() - 1] == tracks.last());
            }
        }
        if forall|i: int| 0 <= i < tracks.len() ==> !is_hidden(#[trigger] tracks[i], ids) {
            assert forall|i: int| 0 <= i < before.len() implies !is_hidden(#[trigger] before[i], ids) by {
                assert(before[i] == tracks[i]);
            }
            assert(!is_hidden(tracks[tracks.len() - 1], ids));
            assert(before.push(tracks.last()) =~= tracks);
        }
    }
}

impl ArtistDetail {
    /// An empty page.
    pub fn new() -> (page: ArtistDetail)
        ensures
            page@ == new_page(),
    {
        ArtistDetail {
            id: None,
            artist: None,
            request: None,
            error: None,
            fill_request: None,
            issued: 0,
            exhausted: false,
        }
    }

    /// The artist shown, once known.
    pub fn artist(&self) -> (artist: Option<&Artist>)
        ensures
            match self@.artist {
                Some(a) => artist matches Some(x) && *x == a,
                None => artist is None,
            },
    {
        match &self.artist {
            Some(a) => Some(a),
            None => None,
        }
    }

    /// The id of the artist the page is for.
    pub fn id(&self) -> (id: Option<&str>)
        ensures
            match self@.id {
                Some(i) => id matches Some(x) && x@ == i,
                None => id is None,
            },
    {
        match &self.id {
            Some(id) => Some(id.as_str()),
            None => None,
        }
    }

    /// The artist's popular tracks; none before the artist is known.
    pub fn tracks(&self) -> (tracks: &[Track])
        ensures
            match self@.artist {
                Some(a) => tracks@ == a.top_tracks@,
                None => tracks@.len() == 0,
            },
    {
        match &self.artist {
            Some(a) => a.top_tracks.as_slice(),
            None => &[],
        }
    }

    /// The artist's albums; none before the artist is known.
    pub fn albums(&self) -> (albums: &[Album])
        ensures
            match self@.artist {
                Some(a) => albums@ == a.albums@,
                None => albums@.len() == 0,
            },
    {
        match &self.artist {
            Some(a) => a.albums.as_slice(),
            None => &[],
        }
    }

    pub fn is_loading(&self) -> (loading: bool)
        ensures
            loading == self@.loading(),
    {
        self.request.is_some()
    }

    /// Whether the discography and the deeper popular tracks are still on their way, after
    /// the overview has already put the page up.
    pub fn is_filling(&self) -> (filling: bool)
        ensures
            filling == self@.filling(),
    {
        self.fill_request.is_some()
    }

    /// Why the overview could not be had.
    pub fn error(&self) -> (error: Option<&str>)
        ensures
            match self@.error {
                Some(e) => error matches Some(x) && x@ == e,
                None => error is None,
            },
    {
        match &self.error {
            Some(e) => Some(e.as_str()),
            None => None,
        }
    }

    /// Numbers a new request, unless every number has been handed out.
    fn issue(&mut self) -> (number: Option<u64>)
        ensures
            old(self)@.exhausted ==> number is None && final(self)@ == old(self)@,
            !old(self)@.exhausted ==> number == Some(old(self)@.issued) && final(self)@
                == after_numbering(old(self)@),
    {
        proof {
            use_type_invariant(&*self);
        }
        if self.exhausted {
            return None;
        }
        let number = self.issued;
        if self.issued < u64::MAX {
            self.issued = self.issued + 1;
        } else {
            self.exhausted = true;
        }
        Some(number)
    }

    /// Opens the page for `id`, given what the session's catalogue has for it. Opening the
    /// artist the page already shows or loads changes nothing. Otherwise the page is emptied,
    /// dropping the requests it waited on, takes the id and then: stays empty when no
    /// catalogue serves it, shows the cached artist (the caller then fills the rest), or
    /// starts loading the overview under a new request number (the caller fetches it and
    /// hands the reply to `artist_loaded` with that number). A page that has handed out every
    /// number starts no request and stays empty under the id.
    pub fn open(&mut self, id: &str, lookup: ArtistLookup) -> (step: OpenStep)
        ensures
            final(self)@.consistent(),
            dropped_stay_dropped(old(self)@, final(self)@),
            ({
                let same = old(self)@.id == Some(id@) && (old(self)@.loading() || old(self)@.artist is Some);
                let emptied = emptied(old(self)@);
                &&& same ==> step == OpenStep::Unchanged && final(self)@ == old(self)@
                &&& !same ==> match lookup {
                    ArtistLookup::NoCatalog => step == OpenStep::NoCatalog && final(self)@ == (
                    ArtistDetailView { id: Some(id@), ..emptied }),
                    ArtistLookup::Cached(a) => step == OpenStep::Shown && final(self)@ == (
                    ArtistDetailView { id: Some(id@), artist: Some(a), ..emptied }),
                    ArtistLookup::Remote => if old(self)@.exhausted {
                        step == OpenStep::OutOfNumbers && final(self)@ == (ArtistDetailView {
                            id: Some(id@),
                            ..emptied
                        })
                    } else {
                        step == OpenStep::Loading(old(self)@.issued) && final(self)@ == (
                        ArtistDetailView {
                            id: Some(id@),
                            request: Some(old(self)@.issued),
                            ..after_numbering(emptied)
                        })
                    },
                }
            }),
    {
        proof {
            use_type_invariant(&*self);
        }
        let same = match &self.id {
            Some(current) => *current == id.to_owned(),
            None => false,
        };
        if same && (self.request.is_some() || self.artist.is_some()) {
            return OpenStep::Unchanged;
        }
        self.clear();
        self.id = Some(id.to_owned());
        match lookup {
            ArtistLookup::NoCatalog => OpenStep::NoCatalog,
            ArtistLookup::Cached(artist) => {
                self.artist = Some(artist);
                OpenStep::Shown
            },
            ArtistLookup::Remote => match self.issue() {
                Some(number) => {
                    self.request = Some(number);
                    OpenStep::Loading(number)
                },
                None => OpenStep::OutOfNumbers,
            },
        }
    }

    /// Takes the reply to overview request `number`. Only the request the page waits on is
    /// heard; a reply to any other, dropped when the page was emptied or reopened, changes
    /// nothing. A heard reply ends the loading and puts up the artist (the caller then fills
    /// the rest) or the reason it failed.
    pub fn artist_loaded(&mut self, number: u64, loaded: Result<Artist, String>) -> (heard: bool)
        ensures
            final(self)@.consistent(),
            dropped_stay_dropped(old(self)@, final(self)@),
            heard == (old(self)@.request == Some(number)),
            !heard ==> final(self)@ == old(self)@,
            heard ==> match loaded {
                Ok(a) => final(self)@ == (ArtistDetailView { id: old(self)@.id, artist: Some(a), ..emptied(old(self)@) }),
                Err(reason) => final(self)@ == (ArtistDetailView { id: old(self)@.id, error: Some(reason@), ..emptied(old(self)@) }),
            },
    {
        proof {
            use_type_invariant(&*self);
        }
        let live = match self.request {
            Some(current) => current == number,
            None => false,
        };
        if !live {
            return false;
        }
        self.request = None;
        match loaded {
            Ok(artist) => self.artist = Some(artist),
            Err(reason) => self.error = Some(reason),
        }
        true
    }

    /// Puts a catalogue over the artist shown: each non-empty list replaces the one the
    /// overview carried; an empty catalogue, or a page without an artist, is left alone.
    pub fn absorb(&mut self, catalogue: ArtistCatalogue)
        ensures
            final(self)@.consistent(),
            final(self)@ == (ArtistDetailView { artist: absorbed(old(self)@.artist, catalogue), ..old(self)@ }),
            dropped_stay_dropped(old(self)@, final(self)@),
    {
        proof {
            use_type_invariant(&*self);
        }
        if catalogue.is_empty() {
            return ;
        }
        let ArtistCatalogue { mut albums, mut top_tracks } = catalogue;
        if albums.len() > 0 {
            swap_albums(&mut self.artist, &mut albums);
        }
        if top_tracks.len() > 0 {
            swap_tracks(&mut self.artist, &mut top_tracks);
        }
    }

    /// Asks for the rest of the page once its overview is up, given what the catalogue has:
    /// nothing happens without an artist up or without a catalogue; a cached catalogue goes
    /// onto the page at once; otherwise the page starts filling under a new request number,
    /// dropping any catalogue request it waited on (the caller fetches the catalogue and hands
    /// the reply to `catalogue_loaded` with that number).
    pub fn fill(&mut self, lookup: CatalogueLookup) -> (step: FillStep)
        ensures
            final(self)@.consistent(),
            dropped_stay_dropped(old(self)@, final(self)@),
            old(self)@.artist is None ==> step == FillStep::Skipped && final(self)@ == old(self)@,
            old(self)@.artist is Some ==> match lookup {
                CatalogueLookup::NoCatalog => step == FillStep::Skipped && final(self)@ == old(self)@,
                CatalogueLookup::Cached(c) => step == FillStep::Absorbed && final(self)@ == (
                ArtistDetailView { artist: absorbed(old(self)@.artist, c), ..old(self)@ }),
                CatalogueLookup::Remote => if old(self)@.exhausted {
                    step == FillStep::Skipped && final(self)@ == old(self)@
                } else {
                    step == FillStep::Filling(old(self)@.issued) && final(self)@ == (
                    ArtistDetailView { fill_request: Some(old(self)@.issued), ..after_numbering(old(self)@) })
                },
            },
    {
        proof {
            use_type_invariant(&*self);
        }
        if self.artist.is_none() {
            return FillStep::Skipped;
        }
        match lookup {
            CatalogueLookup::NoCatalog => FillStep::Skipped,
            CatalogueLookup::Cached(catalogue) => {
                self.absorb(catalogue);
                FillStep::Absorbed
            },
            CatalogueLookup::Remote => match self.issue() {
                Some(number) => {
                    self.fill_request = Some(number);
                    FillStep::Filling(number)
                },
                None => FillStep::Skipped,
            },
        }
    }

    /// Takes the reply to catalogue request `number` (`None` when it failed). Only the request
    /// the page waits on is heard. A heard reply ends the filling and, when it brought a
    /// catalogue, puts it over the artist.
    pub fn catalogue_loaded(&mut self, number: u64, filled: Option<ArtistCatalogue>) -> (heard: bool)
        ensures
            final(self)@.consistent(),
            dropped_stay_dropped(old(self)@, final(self)@),
            heard == (old(self)@.fill_request == Some(number)),
            !heard ==> final(self)@ == old(self)@,
            heard ==> match filled {
                Some(c) => final(self)@ == (ArtistDetailView { fill_request: None, artist: absorbed(old(self)@.artist, c), ..old(self)@ }),
                None => final(self)@ == (ArtistDetailView { fill_request: None, ..old(self)@ }),
            },
    {
        proof {
            use_type_invariant(&*self);
        }
        let live = match self.fill_request {
            Some(current) => current == number,
            None => false,
        };
        if !live {
            return false;
        }
        self.fill_request = None;
        match filled {
            Some(catalogue) => self.absorb(catalogue),
            None => {},
        }
        true
    }

    /// Reacts to a change in who is signed in. `showing_local` tells whether the id the page
    /// is for names a local file (it is not read when the page has no id). Signing in reopens
    /// a page for a provider's artist; signing out empties every page but a local artist's;
    /// a change of the local library reopens a local artist's page.
    pub fn on_session_event(&mut self, event: SessionEvent, showing_local: bool) -> (reaction: SessionReaction)
        ensures
            dropped_stay_dropped(old(self)@, final(self)@),
            final(self)@.consistent(),
            match event {
                SessionEvent::SignedIn => match old(self)@.id {
                    Some(i) => if !showing_local {
                        final(self)@ == emptied(old(self)@) && (reaction matches SessionReaction::Reopen(r) && r@ == i)
                    } else {
                        final(self)@ == old(self)@ && reaction is Nothing
                    },
                    None => final(self)@ == old(self)@ && reaction is Nothing,
                },
                SessionEvent::SignedOut => if old(self)@.id is Some && showing_local {
                    final(self)@ == old(self)@ && reaction is Nothing
                } else {
                    final(self)@ == emptied(old(self)@) && reaction is Notify
                },
                SessionEvent::Reconnected => final(self)@ == old(self)@ && reaction is Nothing,
                SessionEvent::LocalChanged => match old(self)@.id {
                    Some(i) => if showing_local {
                        final(self)@ == emptied(old(self)@) && (reaction matches SessionReaction::Reopen(r) && r@ == i)
                    } else {
                        final(self)@ == old(self)@ && reaction is Nothing
                    },
                    None => final(self)@ == old(self)@ && reaction is Nothing,
                },
            },
    {
        proof {
            use_type_invariant(&*self);
        }
        match event {
            SessionEvent::SignedIn => match copy_text(&self.id) {
                Some(id) => if !showing_local {
                    self.clear();
                    SessionReaction::Reopen(id)
                } else {
                    SessionReaction::Nothing
                },
                None => SessionReaction::Nothing,
            },
            SessionEvent::SignedOut => {
                if self.id.is_some() && showing_local {
                    SessionReaction::Nothing
                } else {
                    self.clear();
                    SessionReaction::Notify
                }
            },
            SessionEvent::Reconnected => SessionReaction::Nothing,
            SessionEvent::LocalChanged => match copy_text(&self.id) {
                Some(id) => if showing_local {
                    self.clear();
                    SessionReaction::Reopen(id)
                } else {
                    SessionReaction::Nothing
                },
                None => SessionReaction::Nothing,
            },
        }
    }

    /// Drops from the artist's popular tracks those the library hid, by id; tracks without an
    /// id stay. True when a track went, so the page wants drawing again.
    pub fn on_tracks_hidden(&mut self, ids: &Vec<String>) -> (changed: bool)
        ensures
            dropped_stay_dropped(old(self)@, final(self)@),
            final(self)@.consistent(),
            match old(self)@.artist {
                None => final(self)@ == old(self)@ && !changed,
                Some(a) => {
                    let kept = visible_tracks(a.top_tracks@, ids@);
                    &&& final(self)@.id == old(self)@.id
                    &&& final(self)@.request == old(self)@.request
                    &&& final(self)@.error == old(self)@.error
                    &&& final(self)@.fill_request == old(self)@.fill_request
                    &&& final(self)@.issued == old(self)@.issued
                    &&& final(self)@.exhausted == old(self)@.exhausted
                    &&& final(self)@.artist matches Some(b) && b.id == a.id && b.name == a.name
                        && b.cover == a.cover && b.albums == a.albums && b.top_tracks@ == kept
                    &&& changed == (kept.len() != a.top_tracks@.len())
                },
            },
    {
        proof {
            use_type_invariant(&*self);
        }
        if self.artist.is_none() {
            return false;
        }
        let mut tracks: Vec<Track> = Vec::new();
        swap_tracks(&mut self.artist, &mut tracks);
        let before = tracks.len();
        retain_visible(&mut tracks, ids);
        let changed = tracks.len() != before;
        swap_tracks(&mut self.artist, &mut tracks);
        changed
    }

    /// Empties the page, dropping the requests it waited on; their replies will not be heard.
    pub fn clear(&mut self)
        ensures
            final(self)@ == emptied(old(self)@),
            dropped_stay_dropped(old(self)@, final(self)@),
    {
        proof {
            use_type_invariant(&*self);
        }
        self.fill_request = None;
        self.request = None;
        self.error = None;
        self.artist = None;
        self.id = None;
    }
}

} // verus!
