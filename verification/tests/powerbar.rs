use music_state::model::{Album, Artist, Hit, Kind, Playlist, Track};
use music_state::powerbar::{Powerbar, SelectionFocus, Toggled, MAX_PER_KIND};

type Bar = Powerbar<u32, u8>;

fn new_bar() -> Bar {
    Powerbar::entity(None, 0)
}

fn song(name: &str) -> Hit {
    Hit::Song(Track {
        id: Some(format!("song-{name}")),
        name: name.to_string(),
        artists: "Band".to_string(),
        album: "Record".to_string(),
        cover: None,
    })
}

fn artist(name: &str) -> Hit {
    Hit::Artist(Artist {
        id: Some(format!("artist-{name}")),
        name: name.to_string(),
        cover: None,
        top_tracks: Vec::new(),
        albums: Vec::new(),
    })
}

fn album(name: &str) -> Hit {
    Hit::Album(Album {
        id: format!("album-{name}"),
        name: name.to_string(),
        artists: "Band".to_string(),
        cover: None,
    })
}

fn playlist(name: &str) -> Hit {
    Hit::Playlist(Playlist {
        id: format!("list-{name}"),
        name: name.to_string(),
        owner: "me".to_string(),
        cover: None,
    })
}

fn name_of(hit: &Hit) -> String {
    match hit {
        Hit::Song(t) => t.name.clone(),
        Hit::Artist(a) => a.name.clone(),
        Hit::Album(a) => a.name.clone(),
        Hit::Playlist(p) => p.name.clone(),
    }
}

fn names(bar: &Bar) -> Vec<String> {
    bar.items().iter().map(name_of).collect()
}

/// Two songs, two artists and one album, listed in that order.
fn filled_bar() -> Bar {
    let mut bar = new_bar();
    bar.show(None);
    bar.rebuild_items(
        "moon",
        vec![artist("a1"), song("s1"), album("b1"), song("s2"), artist("a2")],
    );
    bar
}

#[test]
fn new_bar_is_hidden_and_empty() {
    let bar = new_bar();
    assert!(!bar.is_open());
    assert!(bar.items().is_empty());
    assert_eq!(bar.selected(), None);
}

#[test]
fn entity_keeps_the_installed_bar() {
    let mut installed = new_bar();
    installed.show(Some(7));
    let bar = Powerbar::entity(Some(installed), 9);
    assert!(bar.is_open());
    assert_eq!(*bar.playback_status(), 0);
}

#[test]
fn toggle_twice_restores_visibility() {
    let mut bar = filled_bar();
    bar.select_next();
    assert!(matches!(bar.toggle(Some(1)), Toggled::Closed { restore: None }));
    assert!(!bar.is_open());
    assert_eq!(bar.selected(), None);
    assert!(matches!(bar.toggle(Some(5)), Toggled::Shown));
    assert!(bar.is_open());
    assert_eq!(bar.items().len(), 5);
    assert!(matches!(bar.toggle(None), Toggled::Closed { restore: Some(5) }));
}

#[test]
fn rebuild_orders_by_kind_and_caps_each_kind() {
    let mut bar = new_bar();
    let hits = vec![
        playlist("p1"),
        song("s1"),
        song("s2"),
        artist("a1"),
        song("s3"),
        song("s4"),
        album("b1"),
        song("s5"),
    ];
    bar.rebuild_items("night", hits);
    assert_eq!(names(&bar), vec!["s1", "s2", "s3", "a1", "b1", "p1"]);
    let songs = bar.items().iter().filter(|h| h.kind() == Kind::Song).count();
    assert_eq!(songs, MAX_PER_KIND);
}

#[test]
fn blank_query_lists_nothing() {
    let mut bar = filled_bar();
    bar.select_next();
    bar.rebuild_items(" \t\u{3000}", vec![song("s1")]);
    assert!(bar.items().is_empty());
    assert_eq!(bar.selected(), None);
}

#[test]
fn query_with_a_letter_is_not_blank() {
    let mut bar = new_bar();
    bar.rebuild_items("  x ", vec![song("s1")]);
    assert_eq!(names(&bar), vec!["s1"]);
}

#[test]
fn selection_past_the_end_moves_to_the_last_result() {
    let mut bar = filled_bar();
    for _ in 0..5 {
        bar.select_next();
    }
    assert_eq!(bar.selected(), Some(4));
    bar.rebuild_items("moon", vec![song("s1"), album("b1")]);
    assert_eq!(bar.selected(), Some(1));
    bar.rebuild_items("moon", Vec::new());
    assert_eq!(bar.selected(), None);
}

#[test]
fn selection_within_range_stays() {
    let mut bar = filled_bar();
    bar.select_next();
    bar.rebuild_items("moon", vec![song("x"), song("y")]);
    assert_eq!(bar.selected(), Some(0));
}

#[test]
fn select_next_walks_down_and_stops_at_the_end() {
    let mut bar = filled_bar();
    assert!(bar.select_next());
    assert_eq!(bar.selected(), Some(0));
    assert!(bar.select_next());
    assert_eq!(bar.selected(), Some(1));
    for _ in 0..10 {
        bar.select_next();
    }
    assert_eq!(bar.selected(), Some(4));
}

#[test]
fn select_next_without_results_does_nothing() {
    let mut bar = new_bar();
    assert!(!bar.select_next());
    assert_eq!(bar.selected(), None);
}

#[test]
fn select_previous_leaves_the_list_from_the_top() {
    let mut bar = filled_bar();
    assert_eq!(bar.select_previous(), SelectionFocus::Unchanged);
    bar.select_next();
    bar.select_next();
    assert_eq!(bar.select_previous(), SelectionFocus::List);
    assert_eq!(bar.selected(), Some(0));
    assert_eq!(bar.select_previous(), SelectionFocus::Input);
    assert_eq!(bar.selected(), None);
}

#[test]
fn previous_undoes_next_before_the_end() {
    let mut bar = filled_bar();
    bar.select_next();
    bar.select_next();
    let before = bar.selected();
    bar.select_next();
    bar.select_previous();
    assert_eq!(bar.selected(), before);
}

#[test]
fn category_starts_mark_each_run() {
    let bar = filled_bar();
    // s1 s2 | a1 a2 | b1
    assert_eq!(bar.category_starts(), vec![0, 2, 4]);
    assert!(new_bar().category_starts().is_empty());
}

#[test]
fn next_category_cycles_through_the_runs() {
    let mut bar = filled_bar();
    assert!(bar.select_next_category());
    assert_eq!(bar.selected(), Some(2));
    bar.select_next_category();
    assert_eq!(bar.selected(), Some(4));
    bar.select_next_category();
    assert_eq!(bar.selected(), Some(0));
}

#[test]
fn next_category_from_inside_a_run() {
    let mut bar = filled_bar();
    bar.select_next();
    bar.select_next();
    bar.select_next();
    bar.select_next();
    assert_eq!(bar.selected(), Some(3));
    bar.select_next_category();
    assert_eq!(bar.selected(), Some(4));
}

#[test]
fn previous_category_goes_back_and_wraps() {
    let mut bar = filled_bar();
    assert!(bar.select_prev_category());
    assert_eq!(bar.selected(), Some(4));
    bar.select_prev_category();
    assert_eq!(bar.selected(), Some(2));
    bar.select_next();
    assert_eq!(bar.selected(), Some(3));
    bar.select_prev_category();
    assert_eq!(bar.selected(), Some(2));
}

#[test]
fn category_moves_without_results_do_nothing() {
    let mut bar = new_bar();
    assert!(!bar.select_next_category());
    assert!(!bar.select_prev_category());
    assert_eq!(bar.selected(), None);
}

#[test]
fn activate_opens_the_selection_and_closes() {
    let mut bar = filled_bar();
    bar.select_next();
    bar.select_next();
    let confirmed = bar.activate();
    assert_eq!(confirmed.target, Some(1));
    assert_eq!(confirmed.restore, None);
    assert!(!bar.is_open());
    assert_eq!(bar.selected(), None);
    assert_eq!(bar.items().len(), 5);
}

#[test]
fn activate_without_selection_takes_the_first() {
    let mut bar = filled_bar();
    assert_eq!(bar.activate().target, Some(0));
    let mut empty = new_bar();
    empty.show(None);
    assert_eq!(empty.activate().target, None);
    assert!(!empty.is_open());
}

#[test]
fn play_confirm_plays_the_selection_and_closes() {
    let mut bar = filled_bar();
    bar.select_prev_category();
    assert_eq!(bar.play_confirm().target, Some(4));
    assert!(!bar.is_open());
}

#[test]
fn selected_hit_is_the_highlighted_result() {
    let mut bar = filled_bar();
    assert!(bar.selected_hit().is_none());
    bar.select_next();
    bar.select_next();
    assert_eq!(name_of(bar.selected_hit().unwrap()), "s2");
}

#[test]
fn show_and_close_drop_the_selection() {
    let mut bar = filled_bar();
    bar.select_next();
    assert_eq!(bar.close(), None);
    assert!(!bar.is_open());
    assert_eq!(bar.selected(), None);
    bar.show(None);
    assert!(bar.is_open());
    bar.select_next();
    bar.show(None);
    assert_eq!(bar.selected(), None);
}

#[test]
fn closing_gives_back_the_focus_remembered_on_show() {
    let mut bar = new_bar();
    bar.show(Some(42));
    assert_eq!(bar.close(), Some(42));
    assert_eq!(bar.close(), None);
    bar.show(Some(3));
    bar.rebuild_items("moon", vec![song("s1")]);
    let confirmed = bar.play_confirm();
    assert_eq!(confirmed.target, Some(0));
    assert_eq!(confirmed.restore, Some(3));
}

#[test]
fn playback_change_is_kept_only_when_it_differs() {
    let mut bar = Powerbar::<u32, u8>::entity(None, 4);
    assert_eq!(*bar.playback_status(), 4);
    assert!(!bar.playback_changed(4));
    assert!(bar.playback_changed(5));
    assert_eq!(*bar.playback_status(), 5);
}

#[test]
fn spaces_only_query_clears_the_list() {
    let mut bar = filled_bar();
    bar.rebuild_items("   ", vec![song("s1")]);
    assert!(bar.items().is_empty());
}
