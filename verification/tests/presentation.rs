use music_state::model::{Album, Artist, Hit, Kind, Playlist, Track};
use music_state::presentation::{
    category_title, describe_hit, destination_of, group_by_kind, play_request_of, row_look,
    Destination, OriginKind, PlayRequest, Shade, Subtitle, Thumbnail,
};

fn track(id: Option<&str>) -> Track {
    Track {
        id: id.map(|s| s.to_string()),
        name: "Blue".to_string(),
        artists: "Ann, Bo".to_string(),
        album: "Colours".to_string(),
        cover: Some("https://img/blue".to_string()),
    }
}

fn artist(id: Option<&str>) -> Artist {
    Artist {
        id: id.map(|s| s.to_string()),
        name: "Ann".to_string(),
        cover: None,
        top_tracks: Vec::new(),
        albums: Vec::new(),
    }
}

fn album() -> Album {
    Album {
        id: "al-1".to_string(),
        name: "Colours".to_string(),
        artists: "Ann".to_string(),
        cover: None,
    }
}

fn playlist() -> Playlist {
    Playlist {
        id: "pl-1".to_string(),
        name: "Morning".to_string(),
        owner: "Cat".to_string(),
        cover: Some("https://img/pl".to_string()),
    }
}

#[test]
fn category_titles_are_localization_keys() {
    assert_eq!(category_title(Kind::Song), "search-songs");
    assert_eq!(category_title(Kind::Artist), "search-artists");
    assert_eq!(category_title(Kind::Album), "nav-albums");
    assert_eq!(category_title(Kind::Playlist), "nav-playlists");
}

#[test]
fn destinations_follow_the_ids() {
    assert!(matches!(destination_of(&Hit::Song(track(Some("t-1")))), Some(Destination::Song(id)) if id == "t-1"));
    assert!(destination_of(&Hit::Song(track(None))).is_none());
    assert!(matches!(destination_of(&Hit::Artist(artist(Some("ar-1")))), Some(Destination::Artist(id)) if id == "ar-1"));
    assert!(destination_of(&Hit::Artist(artist(None))).is_none());
    assert!(matches!(destination_of(&Hit::Album(album())), Some(Destination::Album(id)) if id == "al-1"));
    assert!(matches!(destination_of(&Hit::Playlist(playlist())), Some(Destination::Playlist(id)) if id == "pl-1"));
}

#[test]
fn play_requests_name_the_collection() {
    assert!(matches!(play_request_of(&Hit::Song(track(None))), Some(PlayRequest::Radio)));
    assert!(play_request_of(&Hit::Artist(artist(None))).is_none());
    match play_request_of(&Hit::Artist(artist(Some("ar-1")))) {
        Some(PlayRequest::Origin { kind, id, name }) => {
            assert_eq!(kind, OriginKind::Artist);
            assert_eq!(id, "ar-1");
            assert_eq!(name, "Ann");
        }
        _ => panic!("an artist with an id plays"),
    }
    match play_request_of(&Hit::Album(album())) {
        Some(PlayRequest::Origin { kind, id, name }) => {
            assert_eq!(kind, OriginKind::Album);
            assert_eq!(id, "al-1");
            assert_eq!(name, "Colours");
        }
        _ => panic!("an album plays"),
    }
    match play_request_of(&Hit::Playlist(playlist())) {
        Some(PlayRequest::Origin { kind, id, name }) => {
            assert_eq!(kind, OriginKind::Playlist);
            assert_eq!(id, "pl-1");
            assert_eq!(name, "Morning");
        }
        _ => panic!("a playlist plays"),
    }
}

#[test]
fn song_rows_join_artists_and_album() {
    let row = describe_hit(&Hit::Song(track(Some("t"))));
    assert_eq!(row.label, "Blue");
    assert!(matches!(row.subtitle, Subtitle::Text(ref t) if t == "Ann, Bo \u{b7} Colours"));
    assert_eq!(row.cover.as_deref(), Some("https://img/blue"));
    assert_eq!(row.icon, "icons/music.svg");
}

#[test]
fn other_rows_describe_their_kind() {
    let row = describe_hit(&Hit::Artist(artist(None)));
    assert_eq!(row.label, "Ann");
    assert!(matches!(row.subtitle, Subtitle::Key("artist-eyebrow")));
    assert!(row.cover.is_none());
    assert_eq!(row.icon, "icons/user.svg");

    let row = describe_hit(&Hit::Album(album()));
    assert_eq!(row.label, "Colours");
    assert!(matches!(row.subtitle, Subtitle::Text(ref t) if t == "Ann"));
    assert_eq!(row.icon, "icons/disc-3.svg");

    let row = describe_hit(&Hit::Playlist(playlist()));
    assert_eq!(row.label, "Morning");
    assert!(matches!(row.subtitle, Subtitle::Text(ref t) if t == "Cat"));
    assert_eq!(row.cover.as_deref(), Some("https://img/pl"));
    assert_eq!(row.icon, "icons/list.svg");
}

#[test]
fn groups_follow_first_appearance() {
    let items = vec![
        Hit::Album(album()),
        Hit::Song(track(None)),
        Hit::Album(album()),
        Hit::Playlist(playlist()),
        Hit::Song(track(None)),
    ];
    let groups = group_by_kind(&items);
    let kinds: Vec<Kind> = groups.iter().map(|g| g.kind).collect();
    assert_eq!(kinds, vec![Kind::Album, Kind::Song, Kind::Playlist]);
    assert_eq!(groups[0].positions, vec![0, 2]);
    assert_eq!(groups[1].positions, vec![1, 4]);
    assert_eq!(groups[2].positions, vec![3]);
}

#[test]
fn no_results_make_no_groups() {
    assert!(group_by_kind(&Vec::new()).is_empty());
}

#[test]
fn chosen_row_stands_out_and_keeps_its_look() {
    let look = row_look(true, &None);
    assert_eq!(look.background, Shade::Secondary);
    assert_eq!(look.hover, None);
    assert!(matches!(look.thumbnail, Thumbnail::Icon));
}

#[test]
fn other_rows_lighten_under_the_pointer_and_show_their_cover() {
    let look = row_look(false, &Some("https://img/c".to_string()));
    assert_eq!(look.background, Shade::Background);
    assert_eq!(look.hover, Some(Shade::SecondaryHover));
    assert!(matches!(look.thumbnail, Thumbnail::Image(ref u) if u == "https://img/c"));
}
