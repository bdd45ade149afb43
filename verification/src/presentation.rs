//! What the search bar shows for its results and what choosing one of them asks for.

use vstd::prelude::*;

use crate::model::{copy_text, Hit, Kind};

verus! {

/// The localization key of the heading over a kind of result.
pub fn category_title(kind: Kind) -> (key: &'static str)
    ensures
        kind == Kind::Song ==> key@ == "search-songs"@,
        kind == Kind::Artist ==> key@ == "search-artists"@,
        kind == Kind::Album ==> key@ == "nav-albums"@,
        kind == Kind::Playlist ==> key@ == "nav-playlists"@,
{
    match kind {
        Kind::Song => "search-songs",
        Kind::Artist => "search-artists",
        Kind::Album => "nav-albums",
        Kind::Playlist => "nav-playlists",
    }
}

/// A page of the app that a result opens.
pub enum Destination {
    Song(String),
    Artist(String),
    Album(String),
    Playlist(String),
}

/// The page a result opens: its own page by id. A song or artist without an id opens nothing.
pub fn destination_of(hit: &Hit) -> (to: Option<Destination>)
    ensures
        match *hit {
            Hit::Song(track) => match track.id {
                Some(id) => to matches Some(Destination::Song(d)) && d == id,
                None => to is None,
            },
            Hit::Artist(artist) => match artist.id {
                Some(id) => to matches Some(Destination::Artist(d)) && d == id,
                None => to is None,
            },
            Hit::Album(album) => to matches Some(Destination::Album(d)) && d == album.id,
            Hit::Playlist(list) => to matches Some(Destination::Playlist(d)) && d == list.id,
        },
{
    match hit {
        Hit::Song(track) => match &track.id {
            Some(id) => Some(Destination::Song(id.clone())),
            None => None,
        },
        Hit::Artist(artist) => match &artist.id {
            Some(id) => Some(Destination::Artist(id.clone())),
            None => None,
        },
        Hit::Album(album) => Some(Destination::Album(album.id.clone())),
        Hit::Playlist(list) => Some(Destination::Playlist(list.id.clone())),
    }
}

/// The kind of collection a playback origin names.
#[derive(PartialEq, Eq, Structural, Clone, Copy, Debug)]
pub enum OriginKind {
    Artist,
    Album,
    Playlist,
}

/// What playing a result asks the player for.
pub enum PlayRequest {
    /// A radio seeded by the song the result holds.
    Radio,
    /// The collection with this id, shown under this name.
    Origin { kind: OriginKind, id: String, name: String },
}

/// What playing a result asks for: a radio from a song, or the whole artist, album or
/// playlist. An artist without an id plays nothing.
pub fn play_request_of(hit: &Hit) -> (request: Option<PlayRequest>)
    ensures
        match *hit {
            Hit::Song(_) => request matches Some(PlayRequest::Radio),
            Hit::Artist(artist) => match artist.id {
                Some(id) => request matches Some(PlayRequest::Origin { kind, id: i, name }) && kind
                    == OriginKind::Artist && i == id && name == artist.name,
                None => request is None,
            },
            Hit::Album(album) => request matches Some(PlayRequest::Origin { kind, id, name })
                && kind == OriginKind::Album && id == album.id && name == album.name,
            Hit::Playlist(list) => request matches Some(PlayRequest::Origin { kind, id, name })
                && kind == OriginKind::Playlist && id == list.id && name == list.name,
        },
{
    match hit {
        Hit::Song(_) => Some(PlayRequest::Radio),
        Hit::Artist(artist) => match &artist.id {
            Some(id) => Some(
                PlayRequest::Origin {
                    kind: OriginKind::Artist,
                    id: id.clone(),
                    name: artist.name.clone(),
                },
            ),
            None => None,
        },
        Hit::Album(album) => Some(
            PlayRequest::Origin {
                kind: OriginKind::Album,
                id: album.id.clone(),
                name: album.name.clone(),
            },
        ),
        Hit::Playlist(list) => Some(
            PlayRequest::Origin {
                kind: OriginKind::Playlist,
                id: list.id.clone(),
                name: list.name.clone(),
            },
        ),
    }
}

/// What stands between a song's artists and its album on its row.
pub const SUBTITLE_SEPARATOR: &'static str = " \u{b7} ";

/// The second line of a result's row.
pub enum Subtitle {
    Text(String),
    /// A localized text, by its key.
    Key(&'static str),
}

/// How a result's row reads: its name, a second line, its cover and the icon shown without one.
pub struct HitDescription {
    pub label: String,
    pub subtitle: Subtitle,
    pub cover: Option<String>,
    pub icon: &'static str,
}

/// How a result's row reads. A song shows "artists · album", an artist the localized word
/// for artist, an album its artists and a playlist its owner.
pub fn describe_hit(hit: &Hit) -> (row: HitDescription)
    ensures
        match *hit {
            Hit::Song(track) => {
                &&& row.label == track.name
                &&& row.subtitle matches Subtitle::Text(t) && t@ == track.artists@
                    + SUBTITLE_SEPARATOR@ + track.album@
                &&& row.cover == track.cover
                &&& row.icon@ == "icons/music.svg"@
            },
            Hit::Artist(artist) => {
                &&& row.label == artist.name
                &&& row.subtitle matches Subtitle::Key(k) && k@ == "artist-eyebrow"@
                &&& row.cover == artist.cover
                &&& row.icon@ == "icons/user.svg"@
            },
            Hit::Album(album) => {
                &&& row.label == album.name
                &&& row.subtitle matches Subtitle::Text(t) && t == album.artists
                &&& row.cover == album.cover
                &&& row.icon@ == "icons/disc-3.svg"@
            },
            Hit::Playlist(list) => {
                &&& row.label == list.name
                &&& row.subtitle matches Subtitle::Text(t) && t == list.owner
                &&& row.cover == list.cover
                &&& row.icon@ == "icons/list.svg"@
            },
        },
{
    match hit {
        Hit::Song(track) => {
            let mut subtitle = track.artists.clone();
            subtitle.append(SUBTITLE_SEPARATOR);
            subtitle.append(track.album.as_str());
            HitDescription {
                label: track.name.clone(),
                subtitle: Subtitle::Text(subtitle),
                cover: copy_text(&track.cover),
                icon: "icons/music.svg",
            }
        },
        Hit::Artist(artist) => HitDescription {
            label: artist.name.clone(),
            subtitle: Subtitle::Key("artist-eyebrow"),
            cover: copy_text(&artist.cover),
            icon: "icons/user.svg",
        },
        Hit::Album(album) => HitDescription {
            label: album.name.clone(),
            subtitle: Subtitle::Text(album.artists.clone()),
            cover: copy_text(&album.cover),
            icon: "icons/disc-3.svg",
        },
        Hit::Playlist(list) => HitDescription {
            label: list.name.clone(),
            subtitle: Subtitle::Text(list.owner.clone()),
            cover: copy_text(&list.cover),
            icon: "icons/list.svg",
        },
    }
}

/// A colour of the theme that a result's row uses.
#[derive(PartialEq, Eq, Structural, Clone, Copy, Debug)]
pub enum Shade {
    Background,
    Secondary,
    SecondaryHover,
}

/// What stands in a row's square at its start.
pub enum Thumbnail {
    /// The cover image at this address.
    Image(String),
    /// The icon of the result's kind.
    Icon,
}

/// How a result's row looks around its text.
pub struct RowLook {
    pub background: Shade,
    /// The background under the pointer, when it changes.
    pub hover: Option<Shade>,
    pub thumbnail: Thumbnail,
}

/// How a row looks: the selected row stands out and keeps its look under the pointer, the
/// others lighten under it; the cover shows when there is one, else the kind's icon.
pub fn row_look(chosen: bool, cover: &Option<String>) -> (look: RowLook)
    ensures
        look.background == (if chosen {
            Shade::Secondary
        } else {
            Shade::Background
        }),
        look.hover == (if chosen {
            None
        } else {
            Some(Shade::SecondaryHover)
        }),
        match *cover {
            Some(url) => look.thumbnail matches Thumbnail::Image(u) && u == url,
            None => look.thumbnail is Icon,
        },
{
    let background = if chosen {
        Shade::Secondary
    } else {
        Shade::Background
    };
    let hover = if chosen {
        None
    } else {
        Some(Shade::SecondaryHover)
    };
    let thumbnail = match cover {
        Some(url) => Thumbnail::Image(url.clone()),
        None => Thumbnail::Icon,
    };
    RowLook { background, hover, thumbnail }
}

/// The kinds among the results, each once, in the order they first appear.
pub open spec fn kinds_in_order(items: Seq<Hit>) -> Seq<Kind>
    decreases items.len(),
{
    if items.len() == 0 {
        Seq::empty()
    } else {
        let before = kinds_in_order(items.drop_last());
        if before.contains(items.last().kind_of()) {
            before
        } else {
            before.push(items.last().kind_of())
        }
    }
}

/// The positions of the results of one kind, in increasing order.
pub open spec fn positions_of_kind(items: Seq<Hit>, kind: Kind) -> Seq<usize>
    decreases items.len(),
{
    if items.len() == 0 {
        Seq::empty()
    } else {
        let before = positions_of_kind(items.drop_last(), kind);
        if items.last().kind_of() == kind {
            before.push((items.len() - 1) as usize)
        } else {
            before
        }
    }
}

/// The results of one kind, shown together under the kind's heading, by position.
pub struct HitGroup {
    pub kind: Kind,
    pub positions: Vec<usize>,
}

proof fn lemma_prefix_step(items: Seq<Hit>, i: int)
    requires
        0 <= i < items.len(),
    ensures
        items.take(i + 1).drop_last() == items.take(i),
        items.take(i + 1).last() == items[i],
        items.take(i + 1).len() == i + 1,
{
    assert(items.take(i + 1).drop_last() =~= items.take(i));
}

fn contains_kind(kinds: &Vec<Kind>, kind: Kind) -> (found: bool)
    ensures
        found == kinds@.contains(kind),
{
    let mut i: usize = 0;
    while i < kinds.len()
        invariant
            i <= kinds@.len(),
            forall|j: int| 0 <= j < i ==> kinds@[j] != kind,
        decreases kinds@.len() - i,
    {
        if kinds[i] == kind {
            return true;
        }
        i = i + 1;
    }
    false
}

/// The kinds among `items` in the order they first appear.
fn kinds_of(items: &Vec<Hit>) -> (kinds: Vec<Kind>)
    ensures
        kinds@ == kinds_in_order(items@),
{
    let mut kinds: Vec<Kind> = Vec::new();
    let mut i: usize = 0;
    proof {
        assert(items@.take(0) =~= Seq::<Hit>::empty());
    }
    while i < items.len()
        invariant
            i <= items@.len(),
            kinds@ == kinds_in_order(items@.take(i as int)),
        decreases items@.len() - i,
    {
        proof {
            lemma_prefix_step(items@, i as int);
        }
        let kind = items[i].kind();
        if !contains_kind(&kinds, kind) {
            kinds.push(kind);
        }
        i = i + 1;
    }
    proof {
        assert(items@.take(items@.len() as int) =~= items@);
    }
    kinds
}

/// The positions of the results of `kind`.
fn positions_of(items: &Vec<Hit>, kind: Kind) -> (positions: Vec<usize>)
    ensures
        positions@ == positions_of_kind(items@, kind),
{
    let mut positions: Vec<usize> = Vec::new();
    let mut i: usize = 0;
    proof {
        assert(items@.take(0) =~= Seq::<Hit>::empty());
    }
    while i < items.len()
        invariant
            i <= items@.len(),
            positions@ == positions_of_kind(items@.take(i as int), kind),
        decreases items@.len() - i,
    {
        proof {
            lemma_prefix_step(items@, i as int);
        }
        if items[i].kind() == kind {
            positions.push(i);
        }
        i = i + 1;
    }
    proof {
        assert(items@.take(items@.len() as int) =~= items@);
    }
    positions
}

/// The results grouped under their kinds: one group per kind present, in the order the kinds
/// first appear, each with the positions of its results in increasing order.
pub fn group_by_kind(items: &Vec<Hit>) -> (groups: Vec<HitGroup>)
    ensures
        groups@.len() == kinds_in_order(items@).len(),
        forall|g: int|
            0 <= g < groups@.len() ==> #[trigger] groups@[g].kind == kinds_in_order(items@)[g]
                && groups@[g].positions@ == positions_of_kind(items@, groups@[g].kind),
{
    let kinds = kinds_of(items);
    let mut groups: Vec<HitGroup> = Vec::new();
    let mut g: usize = 0;
    while g < kinds.len()
        invariant
            g <= kinds@.len(),
            kinds@ == kinds_in_order(items@),
            groups@.len() == g,
            forall|h: int|
                0 <= h < g ==> #[trigger] groups@[h].kind == kinds@[h] && groups@[h].positions@
                    == positions_of_kind(items@, groups@[h].kind),
        decreases kinds@.len() - g,
    {
        let kind = kinds[g];
        let positions = positions_of(items, kind);
        groups.push(HitGroup { kind, positions });
        g = g + 1;
    }
    groups
}

proof fn lemma_positions_of_kind(items: Seq<Hit>, kind: Kind)
    requires
        items.len() <= usize::MAX,
    ensures
        forall|j: int|
            0 <= j < positions_of_kind(items, kind).len() ==> {
                let p = #[trigger] positions_of_kind(items, kind)[j];
                &&& p < items.len()
                &&& items[p as int].kind_of() == kind
            },
        forall|a: int, b: int|
            0 <= a < b < positions_of_kind(items, kind).len() ==> positions_of_kind(items, kind)[a]
                < positions_of_kind(items, kind)[b],
        forall|i: int|
            0 <= i < items.len() && #[trigger] items[i].kind_of() == kind ==> positions_of_kind(
                items,
                kind,
            ).contains(i as usize),
    decreases items.len(),
{
    if items.len() > 0 {
        let before = items.drop_last();
        lemma_positions_of_kind(before, kind);
        assert forall|i: int|
            0 <= i < items.len() && #[trigger] items[i].kind_of() == kind implies positions_of_kind(
                items,
                kind,
            ).contains(i as usize) by {
            let last = (items.len() - 1) as usize;
            if i < items.len() - 1 {
                assert(before[i] == items[i]);
                let a = choose|a: int|
                    0 <= a < positions_of_kind(before, kind).len() && positions_of_kind(
                        before,
                        kind,
                    )[a] == i as usize;
                assert(positions_of_kind(items, kind)[a] == i as usize);
            } else {
                let ps = positions_of_kind(items, kind);
                assert(ps[ps.len() - 1] == last);
            }
        }
    }
}

/// The position of the first result of `kind`, or the number of results when there is none.
pub open spec fn first_of_kind(items: Seq<Hit>, kind: Kind) -> int
    decreases items.len(),
{
    if items.len() == 0 {
        0
    } else {
        let f = first_of_kind(items.drop_last(), kind);
        if f < items.len() - 1 {
            f
        } else if items.last().kind_of() == kind {
            items.len() - 1
        } else {
            items.len() as int
        }
    }
}

proof fn lemma_first_of_kind(items: Seq<Hit>, kind: Kind)
    ensures
        0 <= first_of_kind(items, kind) <= items.len(),
        first_of_kind(items, kind) < items.len() ==> items[first_of_kind(items, kind)].kind_of()
            == kind,
        forall|j: int| 0 <= j < first_of_kind(items, kind) ==> #[trigger] items[j].kind_of() != kind,
    decreases items.len(),
{
    if items.len() > 0 {
        let before = items.drop_last();
        lemma_first_of_kind(before, kind);
        assert forall|j: int| 0 <= j < first_of_kind(items, kind) implies #[trigger] items[j].kind_of()
            != kind by {
            if j < before.len() {
                assert(items[j] == before[j]);
            }
        }
    }
}

/// Groups come in the order their kinds first appear: the first result of an earlier group
/// stands before the first result of a later group.
pub proof fn law_groups_follow_first_appearance(items: Seq<Hit>)
    ensures
        forall|g: int, h: int|
            0 <= g < h < kinds_in_order(items).len() ==> first_of_kind(
                items,
                #[trigger] kinds_in_order(items)[g],
            ) < first_of_kind(items, #[trigger] kinds_in_order(items)[h]),
        forall|g: int|
            0 <= g < kinds_in_order(items).len() ==> first_of_kind(items, #[trigger] kinds_in_order(items)[g])
                < items.len(),
    decreases items.len(),
{
    if items.len() > 0 {
        let before = items.drop_last();
        law_groups_follow_first_appearance(before);
        lemma_kinds_in_order(items);
        lemma_kinds_in_order(before);
        let ks = kinds_in_order(items);
        let kb = kinds_in_order(before);
        let x = items.last().kind_of();
        assert forall|g: int| 0 <= g < kb.len() implies first_of_kind(items, #[trigger] kb[g]) == first_of_kind(
            before,
            kb[g],
        ) by {
            assert(first_of_kind(before, kb[g]) < before.len());
        }
        if !kb.contains(x) {
            lemma_first_of_kind(before, x);
            if first_of_kind(before, x) < before.len() {
                assert(before[first_of_kind(before, x)].kind_of() == x);
                assert(kb.contains(before[first_of_kind(before, x)].kind_of()));
            }
            assert(first_of_kind(items, x) == before.len());
        }
        assert forall|g: int| 0 <= g < ks.len() implies first_of_kind(items, #[trigger] ks[g]) < items.len() by {
            if g < kb.len() {
                assert(ks[g] == kb[g]);
            }
        }
        assert forall|g: int, h: int| 0 <= g < h < ks.len() implies first_of_kind(
            items,
            #[trigger] ks[g],
        ) < first_of_kind(items, #[trigger] ks[h]) by {
            assert(ks[g] == kb[g]);
            if h < kb.len() {
                assert(ks[h] == kb[h]);
            }
        }
    }
}

proof fn lemma_kinds_in_order(items: Seq<Hit>)
    ensures
        forall|i: int| 0 <= i < items.len() ==> kinds_in_order(items).contains(#[trigger] items[i].kind_of()),
        forall|g: int|
            0 <= g < kinds_in_order(items).len() ==> exists|i: int|
                0 <= i < items.len() && #[trigger] items[i].kind_of() == #[trigger] kinds_in_order(items)[g],
        forall|a: int, b: int|
            0 <= a < b < kinds_in_order(items).len() ==> kinds_in_order(items)[a] != kinds_in_order(
                items,
            )[b],
    decreases items.len(),
{
    if items.len() > 0 {
        let before = items.drop_last();
        lemma_kinds_in_order(before);
        let ks = kinds_in_order(items);
        let kb = kinds_in_order(before);
        assert forall|i: int| 0 <= i < items.len() implies ks.contains(#[trigger] items[i].kind_of()) by {
            if i < items.len() - 1 {
                assert(before[i] == items[i]);
                assert(kb.contains(before[i].kind_of()));
                let a = choose|a: int| 0 <= a < kb.len() && kb[a] == before[i].kind_of();
                assert(ks[a] == kb[a]);
            } else if !kb.contains(items.last().kind_of()) {
                assert(ks[ks.len() - 1] == items.last().kind_of());
            }
        }
        assert forall|g: int| 0 <= g < ks.len() implies exists|i: int|
            0 <= i < items.len() && #[trigger] items[i].kind_of() == #[trigger] ks[g] by {
            if g < kb.len() {
                assert(ks[g] == kb[g]);
                let i = choose|i: int| 0 <= i < before.len() && #[trigger] before[i].kind_of() == kb[g];
                assert(items[i] == before[i]);
            } else {
                assert(items[items.len() - 1].kind_of() == ks[g]);
            }
        }
    }
}

/// Grouping the results loses none and invents none: every result stands in the group of its
/// kind, and every position in a group is a result of that group's kind, in increasing order.
/// Each kind has one group at most.
pub proof fn law_groups_partition_results(items: Seq<Hit>)
    requires
        items.len() <= usize::MAX,
    ensures
        forall|i: int|
            0 <= i < items.len() ==> kinds_in_order(items).contains(#[trigger] items[i].kind_of())
                && positions_of_kind(items, items[i].kind_of()).contains(i as usize),
        forall|kind: Kind, j: int|
            0 <= j < positions_of_kind(items, kind).len() ==> {
                let p = #[trigger] positions_of_kind(items, kind)[j];
                &&& p < items.len()
                &&& items[p as int].kind_of() == kind
            },
        forall|a: int, b: int|
            0 <= a < b < kinds_in_order(items).len() ==> kinds_in_order(items)[a] != kinds_in_order(
                items,
            )[b],
        forall|kind: Kind, a: int, b: int|
            0 <= a < b < positions_of_kind(items, kind).len() ==> #[trigger] positions_of_kind(
                items,
                kind,
            )[a] < #[trigger] positions_of_kind(items, kind)[b],
{
    lemma_kinds_in_order(items);
    lemma_positions_of_kind(items, Kind::Song);
    lemma_positions_of_kind(items, Kind::Artist);
    lemma_positions_of_kind(items, Kind::Album);
    lemma_positions_of_kind(items, Kind::Playlist);
    assert forall|kind: Kind, j: int| 0 <= j < positions_of_kind(items, kind).len() implies {
        let p = #[trigger] positions_of_kind(items, kind)[j];
        &&& p < items.len()
        &&& items[p as int].kind_of() == kind
    } by {
        match kind {
            Kind::Song => {},
            Kind::Artist => {},
            Kind::Album => {},
            Kind::Playlist => {},
        }
    }
    assert forall|kind: Kind, a: int, b: int|
        0 <= a < b < positions_of_kind(items, kind).len() implies #[trigger] positions_of_kind(
            items,
            kind,
        )[a] < #[trigger] positions_of_kind(items, kind)[b] by {
        match kind {
            Kind::Song => {},
            Kind::Artist => {},
            Kind::Album => {},
            Kind::Playlist => {},
        }
    }
    assert forall|i: int| 0 <= i < items.len() implies kinds_in_order(items).contains(
        #[trigger] items[i].kind_of(),
    ) && positions_of_kind(items, items[i].kind_of()).contains(i as usize) by {
        match items[i].kind_of() {
            Kind::Song => {},
            Kind::Artist => {},
            Kind::Album => {},
            Kind::Playlist => {},
        }
    }
}

} // verus!
