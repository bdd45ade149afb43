use music_state::artist::{
    ArtistDetail, ArtistLookup, CatalogueLookup, FillStep, OpenStep, SessionEvent,
    SessionReaction,
};
use music_state::model::{Album, Artist, ArtistCatalogue, Track};

fn track(id: Option<&str>, name: &str) -> Track {
    Track {
        id: id.map(|s| s.to_string()),
        name: name.to_string(),
        artists: "Ann".to_string(),
        album: "Colours".to_string(),
        cover: None,
    }
}

fn album(name: &str) -> Album {
    Album {
        id: format!("al-{name}"),
        name: name.to_string(),
        artists: "Ann".to_string(),
        cover: None,
    }
}

fn ann() -> Artist {
    Artist {
        id: Some("ar-1".to_string()),
        name: "Ann".to_string(),
        cover: None,
        top_tracks: vec![track(Some("t1"), "One"), track(Some("t2"), "Two")],
        albums: vec![album("First")],
    }
}

fn track_names(page: &ArtistDetail) -> Vec<String> {
    page.tracks().iter().map(|t| t.name.clone()).collect()
}

fn album_names(page: &ArtistDetail) -> Vec<String> {
    page.albums().iter().map(|a| a.name.clone()).collect()
}

fn shown_page() -> ArtistDetail {
    let mut page = ArtistDetail::new();
    assert_eq!(page.open("ar-1", ArtistLookup::Cached(ann())), OpenStep::Shown);
    page
}

#[test]
fn new_page_is_empty() {
    let page = ArtistDetail::new();
    assert!(page.id().is_none());
    assert!(page.artist().is_none());
    assert!(page.tracks().is_empty());
    assert!(page.albums().is_empty());
    assert!(!page.is_loading());
    assert!(!page.is_filling());
    assert!(page.error().is_none());
}

#[test]
fn open_without_catalog_keeps_only_the_id() {
    let mut page = ArtistDetail::new();
    assert_eq!(page.open("ar-9", ArtistLookup::NoCatalog), OpenStep::NoCatalog);
    assert_eq!(page.id(), Some("ar-9"));
    assert!(page.artist().is_none());
    assert!(!page.is_loading());
}

#[test]
fn open_cached_shows_the_artist() {
    let page = shown_page();
    assert_eq!(page.id(), Some("ar-1"));
    assert_eq!(page.artist().map(|a| a.name.clone()), Some("Ann".to_string()));
    assert_eq!(track_names(&page), vec!["One", "Two"]);
    assert_eq!(album_names(&page), vec!["First"]);
}

#[test]
fn open_remote_loads_then_shows() {
    let mut page = ArtistDetail::new();
    assert_eq!(page.open("ar-1", ArtistLookup::Remote), OpenStep::Loading(0));
    assert!(page.is_loading());
    assert!(page.artist().is_none());
    assert!(page.artist_loaded(0, Ok(ann())));
    assert!(!page.is_loading());
    assert_eq!(track_names(&page), vec!["One", "Two"]);
}

#[test]
fn failed_load_shows_the_reason() {
    let mut page = ArtistDetail::new();
    page.open("ar-1", ArtistLookup::Remote);
    assert!(page.artist_loaded(0, Err("offline".to_string())));
    assert_eq!(page.error(), Some("offline"));
    assert!(page.artist().is_none());
    assert!(!page.is_loading());
}

#[test]
fn opening_the_same_artist_again_changes_nothing() {
    let mut page = ArtistDetail::new();
    page.open("ar-1", ArtistLookup::Remote);
    assert_eq!(page.open("ar-1", ArtistLookup::NoCatalog), OpenStep::Unchanged);
    assert!(page.is_loading());
    let mut shown = shown_page();
    assert_eq!(shown.open("ar-1", ArtistLookup::Remote), OpenStep::Unchanged);
    assert!(shown.artist().is_some());
}

#[test]
fn reopening_after_an_error_tries_again() {
    let mut page = ArtistDetail::new();
    page.open("ar-1", ArtistLookup::Remote);
    page.artist_loaded(0, Err("offline".to_string()));
    assert_eq!(page.open("ar-1", ArtistLookup::Remote), OpenStep::Loading(1));
    assert!(page.error().is_none());
}

#[test]
fn opening_another_artist_replaces_the_page() {
    let mut page = shown_page();
    assert_eq!(page.open("ar-2", ArtistLookup::Remote), OpenStep::Loading(0));
    assert_eq!(page.id(), Some("ar-2"));
    assert!(page.artist().is_none());
}

#[test]
fn stale_replies_are_ignored() {
    let mut page = ArtistDetail::new();
    assert_eq!(page.open("ar-1", ArtistLookup::Remote), OpenStep::Loading(0));
    assert_eq!(page.open("ar-2", ArtistLookup::Remote), OpenStep::Loading(1));
    assert!(!page.artist_loaded(0, Ok(ann())));
    assert!(page.is_loading());
    assert!(page.artist().is_none());
    let mut shown = shown_page();
    assert!(!shown.artist_loaded(0, Err("late".to_string())));
    assert!(shown.error().is_none());
}

#[test]
fn reply_after_reopening_the_same_artist_is_ignored() {
    let mut page = ArtistDetail::new();
    assert_eq!(page.open("ar-1", ArtistLookup::Remote), OpenStep::Loading(0));
    page.clear();
    assert_eq!(page.open("ar-1", ArtistLookup::Remote), OpenStep::Loading(1));
    assert!(!page.artist_loaded(0, Err("dropped".to_string())));
    assert!(page.is_loading());
    assert!(page.error().is_none());
    assert!(page.artist_loaded(1, Ok(ann())));
    assert_eq!(track_names(&page), vec!["One", "Two"]);
}

#[test]
fn fill_absorbs_a_cached_catalogue() {
    let mut page = shown_page();
    let catalogue = ArtistCatalogue {
        albums: vec![album("First"), album("Second")],
        top_tracks: Vec::new(),
    };
    assert_eq!(page.fill(CatalogueLookup::Cached(catalogue)), FillStep::Absorbed);
    assert_eq!(album_names(&page), vec!["First", "Second"]);
    assert_eq!(track_names(&page), vec!["One", "Two"]);
}

#[test]
fn fill_without_artist_or_catalog_is_skipped() {
    let mut page = ArtistDetail::new();
    page.open("ar-1", ArtistLookup::Remote);
    assert_eq!(page.fill(CatalogueLookup::Remote), FillStep::Skipped);
    assert!(!page.is_filling());
    let mut shown = shown_page();
    assert_eq!(shown.fill(CatalogueLookup::NoCatalog), FillStep::Skipped);
}

#[test]
fn remote_fill_replaces_nonempty_lists() {
    let mut page = shown_page();
    assert_eq!(page.fill(CatalogueLookup::Remote), FillStep::Filling(0));
    assert!(page.is_filling());
    let catalogue = ArtistCatalogue {
        albums: Vec::new(),
        top_tracks: vec![track(Some("t3"), "Three")],
    };
    assert!(page.catalogue_loaded(0, Some(catalogue)));
    assert!(!page.is_filling());
    assert_eq!(track_names(&page), vec!["Three"]);
    assert_eq!(album_names(&page), vec!["First"]);
}

#[test]
fn failed_fill_leaves_the_overview() {
    let mut page = shown_page();
    page.fill(CatalogueLookup::Remote);
    assert!(page.catalogue_loaded(0, None));
    assert!(!page.is_filling());
    assert_eq!(track_names(&page), vec!["One", "Two"]);
}

#[test]
fn stale_catalogue_is_ignored() {
    let mut page = shown_page();
    assert_eq!(page.fill(CatalogueLookup::Remote), FillStep::Filling(0));
    assert_eq!(page.fill(CatalogueLookup::Remote), FillStep::Filling(1));
    assert!(!page.catalogue_loaded(0, None));
    assert!(!page.catalogue_loaded(7, None));
    assert!(page.is_filling());
}

#[test]
fn empty_catalogue_leaves_the_page_alone() {
    let mut page = shown_page();
    page.absorb(ArtistCatalogue { albums: Vec::new(), top_tracks: Vec::new() });
    assert_eq!(track_names(&page), vec!["One", "Two"]);
    assert_eq!(album_names(&page), vec!["First"]);
}

#[test]
fn signing_in_reopens_a_provider_artist() {
    let mut page = shown_page();
    match page.on_session_event(SessionEvent::SignedIn, false) {
        SessionReaction::Reopen(id) => assert_eq!(id, "ar-1"),
        _ => panic!("the page reopens"),
    }
    assert!(page.id().is_none());
    let mut local = shown_page();
    assert!(matches!(local.on_session_event(SessionEvent::SignedIn, true), SessionReaction::Nothing));
    assert!(local.artist().is_some());
}

#[test]
fn signing_out_empties_all_but_local_pages() {
    let mut page = shown_page();
    assert!(matches!(page.on_session_event(SessionEvent::SignedOut, false), SessionReaction::Notify));
    assert!(page.artist().is_none());
    let mut local = shown_page();
    assert!(matches!(local.on_session_event(SessionEvent::SignedOut, true), SessionReaction::Nothing));
    assert!(local.artist().is_some());
    let mut empty = ArtistDetail::new();
    assert!(matches!(empty.on_session_event(SessionEvent::SignedOut, true), SessionReaction::Notify));
}

#[test]
fn local_change_reopens_a_local_artist() {
    let mut local = shown_page();
    match local.on_session_event(SessionEvent::LocalChanged, true) {
        SessionReaction::Reopen(id) => assert_eq!(id, "ar-1"),
        _ => panic!("the page reopens"),
    }
    let mut page = shown_page();
    assert!(matches!(page.on_session_event(SessionEvent::LocalChanged, false), SessionReaction::Nothing));
    assert!(matches!(page.on_session_event(SessionEvent::Reconnected, false), SessionReaction::Nothing));
    assert!(page.artist().is_some());
}

#[test]
fn hidden_tracks_leave_the_page() {
    let mut page = ArtistDetail::new();
    let mut artist = ann();
    artist.top_tracks.push(track(None, "Untitled"));
    page.open("ar-1", ArtistLookup::Cached(artist));
    assert!(page.on_tracks_hidden(&vec!["t1".to_string(), "zz".to_string()]));
    assert_eq!(track_names(&page), vec!["Two", "Untitled"]);
    assert!(!page.on_tracks_hidden(&vec!["zz".to_string()]));
    assert_eq!(track_names(&page), vec!["Two", "Untitled"]);
}

#[test]
fn hidden_tracks_without_artist_change_nothing() {
    let mut page = ArtistDetail::new();
    assert!(!page.on_tracks_hidden(&vec!["t1".to_string()]));
}

#[test]
fn clear_empties_the_page() {
    let mut page = shown_page();
    page.fill(CatalogueLookup::Remote);
    page.clear();
    assert!(page.id().is_none());
    assert!(page.artist().is_none());
    assert!(!page.is_filling());
}
