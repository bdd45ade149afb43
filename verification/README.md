# music_state

The decisions behind a music player's views, as a verified library:

- `src/powerbar.rs`: the search bar's state (open, listed results, highlighted one), how a
  search's results are listed (a few of each kind, songs first), and keyboard moves by result
  and by category.
- `src/presentation.rs`: what a result's row reads, which page a result opens, what playing it
  asks for, how results group under their kind, and how a row looks.
- `src/artist.rs`: the artist page as a state machine fed by open requests, replies, sign-in
  changes and hidden tracks.
- `src/lyrics.rs`: local lyrics: the `.lrc` file beside a track, else its tags.
- `src/text.rs`, `src/model.rs`: text checks and the catalogue records.

`app/` holds the file reading and background work around the lyrics lookup.
