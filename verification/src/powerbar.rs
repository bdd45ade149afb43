//! The search bar: a modal list of search results, at most a few of each kind, that the user
//! walks with the keyboard and opens or plays.

use vstd::prelude::*;
use vstd::std_specs::cmp::PartialEqSpec;

use crate::model::{Hit, Kind};
use crate::text::{blank, is_blank};

verus! {

/// Most results the search bar shows of one kind.
pub const MAX_PER_KIND: usize = 3;

/// What the search bar holds, as plain values. `F` is the handle of a focusable element of
/// the window, `S` what the bar knows of the player's state.
pub struct PowerbarView<F, S> {
    pub open: bool,
    pub items: Seq<Hit>,
    pub selected: Option<usize>,
    /// The element that had the focus when the bar was shown, to get it back on close.
    pub restore: Option<F>,
    /// The player's state as the bar last drew it.
    pub playback_status: S,
}

impl<F, S> PowerbarView<F, S> {
    /// The selection, when there is one, points at a shown result.
    pub open spec fn selection_valid(self) -> bool {
        self.selected matches Some(i) ==> i < self.items.len()
    }
}

/// The search bar's state: whether it is open, the results it lists, the highlighted one,
/// the element to give the focus back to and the player's state it last drew.
pub struct Powerbar<F, S> {
    open: bool,
    items: Vec<Hit>,
    selected: Option<usize>,
    restore: Option<F>,
    playback_status: S,
}

impl<F, S> Powerbar<F, S> {
    /// The selection, when there is one, points at a listed result.
    #[verifier::type_invariant]
    spec fn selection_in_range(self) -> bool {
        self.selected matches Some(i) ==> i < self.items@.len()
    }
}

impl<F, S> View for Powerbar<F, S> {
    type V = PowerbarView<F, S>;

    closed spec fn view(&self) -> PowerbarView<F, S> {
        PowerbarView {
            open: self.open,
            items: self.items@,
            selected: self.selected,
            restore: self.restore,
            playback_status: self.playback_status,
        }
    }
}

/// What confirming the bar leads to.
pub struct Confirmed<F> {
    /// The position of the result to open or play.
    pub target: Option<usize>,
    /// The element to give the focus back to.
    pub restore: Option<F>,
}

/// What toggling the bar did.
pub enum Toggled<F> {
    Shown,
    /// The bar closed; the focus goes back to this element, if any.
    Closed { restore: Option<F> },
}

/// Where the keyboard focus goes after moving the selection up.
#[derive(PartialEq, Eq, Structural, Clone, Copy, Debug)]
pub enum SelectionFocus {
    /// Nothing was selected: nothing moves.
    Unchanged,
    /// The selection left the top of the list: the query field takes the focus back.
    Input,
    /// The selection moved within the list, which keeps the focus.
    List,
}

/// The selection after moving down once in a list of `len` results.
pub open spec fn next_selection(selected: Option<usize>, len: nat) -> Option<usize> {
    if len == 0 {
        selected
    } else {
        match selected {
            None => Some(0usize),
            Some(i) => if i + 1 < len { Some((i + 1) as usize) } else { Some((len - 1) as usize) },
        }
    }
}

/// The selection after moving up once: from the top it leaves the list.
pub open spec fn previous_selection(selected: Option<usize>) -> Option<usize> {
    match selected {
        None => None,
        Some(i) => if i == 0 { None } else { Some((i - 1) as usize) },
    }
}

/// The result that confirming opens or plays: the selected one, else the first.
pub open spec fn confirm_target<F, S>(v: PowerbarView<F, S>) -> Option<usize> {
    match v.selected {
        Some(i) => Some(i),
        None => if v.items.len() > 0 { Some(0usize) } else { None },
    }
}

/// The state after closing: hidden, nothing selected, no focus left to give back, the results
/// kept.
pub open spec fn closed_view<F, S>(v: PowerbarView<F, S>) -> PowerbarView<F, S> {
    PowerbarView { open: false, selected: None, restore: None, ..v }
}

/// The state after showing while `focused` had the focus: open, nothing selected, that
/// element remembered, the results kept.
pub open spec fn shown_view<F, S>(v: PowerbarView<F, S>, focused: Option<F>) -> PowerbarView<F, S> {
    PowerbarView { open: true, selected: None, restore: focused, ..v }
}

/// The state after a toggle: a shown bar closes, a hidden one shows.
pub open spec fn toggled_view<F, S>(v: PowerbarView<F, S>, focused: Option<F>) -> PowerbarView<F, S> {
    if v.open {
        closed_view(v)
    } else {
        shown_view(v, focused)
    }
}

/// The results of one kind, in the order the search gave them.
pub open spec fn hits_of_kind(hits: Seq<Hit>, kind: Kind) -> Seq<Hit>
    decreases hits.len(),
{
    if hits.len() == 0 {
        Seq::empty()
    } else {
        let before = hits_of_kind(hits.drop_last(), kind);
        if hits.last().kind_of() == kind {
            before.push(hits.last())
        } else {
            before
        }
    }
}

/// The first `MAX_PER_KIND` of a list, or all of it when it is shorter.
pub open spec fn capped(hits: Seq<Hit>) -> Seq<Hit> {
    if hits.len() <= MAX_PER_KIND {
        hits
    } else {
        hits.take(MAX_PER_KIND as int)
    }
}

/// What the bar lists for a search's results: the first few songs, then the first few
/// artists, albums and playlists.
pub open spec fn shown_hits(hits: Seq<Hit>) -> Seq<Hit> {
    capped(hits_of_kind(hits, Kind::Song)) + capped(hits_of_kind(hits, Kind::Artist)) + capped(
        hits_of_kind(hits, Kind::Album),
    ) + capped(hits_of_kind(hits, Kind::Playlist))
}

/// A selection past the end of a list of `len` results moves to its last result, or goes
/// away when the list is empty; any other selection stays.
pub open spec fn clamped_selection(selected: Option<usize>, len: nat) -> Option<usize> {
    match selected {
        Some(i) => if i < len {
            Some(i)
        } else if len == 0 {
            None
        } else {
            Some((len - 1) as usize)
        },
        None => None,
    }
}

proof fn lemma_hits_of_kind_step(hits: Seq<Hit>, i: int, kind: Kind)
    requires
        0 <= i < hits.len(),
    ensures
        hits_of_kind(hits.take(i + 1), kind) == (if hits[i].kind_of() == kind {
            hits_of_kind(hits.take(i), kind).push(hits[i])
        } else {
            hits_of_kind(hits.take(i), kind)
        }),
{
    assert(hits.take(i + 1).drop_last() =~= hits.take(i));
    assert(hits.take(i + 1).last() == hits[i]);
}

proof fn lemma_capped_push(before: Seq<Hit>, hit: Hit, bucket: Seq<Hit>)
    requires
        bucket == capped(before),
    ensures
        bucket.len() < MAX_PER_KIND ==> capped(before.push(hit)) == bucket.push(hit),
        bucket.len() >= MAX_PER_KIND ==> capped(before.push(hit)) == bucket,
        bucket.len() <= MAX_PER_KIND,
{
    if before.len() >= MAX_PER_KIND {
        assert(before.push(hit).take(MAX_PER_KIND as int) =~= before.take(MAX_PER_KIND as int));
        if before.len() == MAX_PER_KIND {
            assert(before.take(MAX_PER_KIND as int) =~= before);
        }
    }
}

/// Result `i` opens a run of one kind: it is the first result, or its kind differs from the
/// one before it.
pub open spec fn starts_category(items: Seq<Hit>, i: int) -> bool {
    0 <= i < items.len() && (i == 0 || items[i].kind_of() != items[i - 1].kind_of())
}

/// `n` is where moving to the next category lands from `current`: the first category start
/// after it, or the first result when no category starts after it.
pub open spec fn is_next_category(items: Seq<Hit>, current: int, n: int) -> bool {
    &&& starts_category(items, n)
    &&& {
        ||| (current < n && forall|j: int| current < j < n ==> !#[trigger] starts_category(items, j))
        ||| (n == 0 && forall|j: int| current < j ==> !#[trigger] starts_category(items, j))
    }
}

/// `n` is where moving to the previous category lands from `current`: the last category start
/// before it, or the last category start of all when none is before it.
pub open spec fn is_previous_category(items: Seq<Hit>, current: int, n: int) -> bool {
    &&& starts_category(items, n)
    &&& {
        ||| (n < current && forall|j: int| n < j < current ==> !#[trigger] starts_category(items, j))
        ||| ((forall|j: int| j < current ==> !#[trigger] starts_category(items, j)) && forall|j: int|
            n < j ==> !#[trigger] starts_category(items, j))
    }
}

/// Where moving between categories starts from: the selection, else the first result.
pub open spec fn category_origin(selected: Option<usize>) -> int {
    match selected {
        Some(i) => i as int,
        None => 0,
    }
}

impl<F, S> Powerbar<F, S> {
    /// The search bar that is installed, or, when there is none yet, a new one: hidden, empty,
    /// with nothing selected and no focus to give back, drawing the player's current state.
    /// The caller installs it and wires it: a new query asks the search, new search results
    /// go to `rebuild_items`, a change of the player goes to `playback_changed`.
    pub fn entity(installed: Option<Powerbar<F, S>>, playback_status: S) -> (bar: Powerbar<F, S>)
        ensures
            installed matches Some(p) ==> bar == p,
            installed is None ==> bar@ == (PowerbarView::<F, S> {
                open: false,
                items: Seq::<Hit>::empty(),
                selected: None,
                restore: None,
                playback_status,
            }),
    {
        match installed {
            Some(p) => p,
            None => Powerbar {
                open: false,
                items: Vec::new(),
                selected: None,
                restore: None,
                playback_status,
            },
        }
    }

    /// Takes the player's current state. True, and the state is kept, when it differs from
    /// the one the bar drew, so the bar wants drawing again; otherwise nothing changes. For a
    /// state type whose `==` keeps its specification, "differs" is `!eq_spec`.
    pub fn playback_changed(&mut self, current: S) -> (changed: bool)
        where
            S: PartialEq,
        ensures
            S::obeys_eq_spec() ==> changed == !old(self)@.playback_status.eq_spec(&current),
            changed ==> final(self)@ == (PowerbarView { playback_status: current, ..old(self)@ }),
            !changed ==> final(self)@ == old(self)@,
            final(self)@.selection_valid(),
    {
        proof {
            use_type_invariant(&*self);
        }
        if self.playback_status != current {
            self.playback_status = current;
            true
        } else {
            false
        }
    }

    /// The player's state the bar last drew.
    pub fn playback_status(&self) -> (status: &S)
        ensures
            *status == self@.playback_status,
    {
        &self.playback_status
    }

    pub fn is_open(&self) -> (open: bool)
        ensures
            open == self@.open,
    {
        self.open
    }

    pub fn items(&self) -> (items: &Vec<Hit>)
        ensures
            items@ == self@.items,
    {
        &self.items
    }

    pub fn selected(&self) -> (selected: Option<usize>)
        ensures
            selected == self@.selected,
    {
        self.selected
    }

    /// Shows the bar with nothing selected, remembering `focused`, the element that had the
    /// focus. The caller then focuses the query field, asks the search for the current query
    /// and draws the bar again.
    pub fn show(&mut self, focused: Option<F>)
        ensures
            final(self)@ == shown_view(old(self)@, focused),
            final(self)@.selection_valid(),
    {
        proof {
            use_type_invariant(&*self);
        }
        self.open = true;
        self.selected = None;
        self.restore = focused;
    }

    /// Hides the bar and drops the selection. Gives back the element remembered when the bar
    /// was shown: the caller focuses it, if there is one, and draws the bar again.
    pub fn close(&mut self) -> (restore: Option<F>)
        ensures
            restore == old(self)@.restore,
            final(self)@ == closed_view(old(self)@),
            final(self)@.selection_valid(),
    {
        proof {
            use_type_invariant(&*self);
        }
        self.open = false;
        self.selected = None;
        let mut restore = None;
        std::mem::swap(&mut restore, &mut self.restore);
        restore
    }

    /// Closes a shown bar, handing back the element to focus, and shows a hidden one,
    /// remembering `focused`.
    pub fn toggle(&mut self, focused: Option<F>) -> (toggled: Toggled<F>)
        ensures
            final(self)@ == toggled_view(old(self)@, focused),
            old(self)@.open ==> (toggled matches Toggled::Closed { restore } && restore == old(
                self,
            )@.restore),
            !old(self)@.open ==> toggled is Shown,
            final(self)@.selection_valid(),
    {
        proof {
            use_type_invariant(&*self);
        }
        if self.open {
            let restore = self.close();
            Toggled::Closed { restore }
        } else {
            self.show(focused);
            Toggled::Shown
        }
    }

    /// Lists the results of a search for `query`, at most `MAX_PER_KIND` of each kind, songs
    /// first, then artists, albums and playlists, each in the order the search gave them. A
    /// blank query lists nothing and drops the selection; otherwise a selection past the new
    /// end moves to the last result.
    pub fn rebuild_items(&mut self, query: &str, hits: Vec<Hit>)
        ensures
            final(self)@.open == old(self)@.open,
            final(self)@.restore == old(self)@.restore,
            final(self)@.playback_status == old(self)@.playback_status,
            blank(query@) ==> final(self)@.items == Seq::<Hit>::empty() && final(self)@.selected
                is None,
            !blank(query@) ==> final(self)@.items == shown_hits(hits@) && final(self)@.selected
                == clamped_selection(old(self)@.selected, shown_hits(hits@).len()),
            final(self)@.selection_valid(),
    {
        proof {
            use_type_invariant(&*self);
        }
        if is_blank(query) {
            self.selected = None;
            self.items = Vec::new();
            return ;
        }
        let ghost all = hits@;
        let mut songs: Vec<Hit> = Vec::new();
        let mut artists: Vec<Hit> = Vec::new();
        let mut albums: Vec<Hit> = Vec::new();
        let mut playlists: Vec<Hit> = Vec::new();
        for hit in it: hits.into_iter()
            invariant
                it.seq() == all,
                songs@ == capped(hits_of_kind(all.take(it.index()), Kind::Song)),
                artists@ == capped(hits_of_kind(all.take(it.index()), Kind::Artist)),
                albums@ == capped(hits_of_kind(all.take(it.index()), Kind::Album)),
                playlists@ == capped(hits_of_kind(all.take(it.index()), Kind::Playlist)),
        {
            let ghost taken = it.index();
            proof {
                assert(hit == all[taken]);
                lemma_hits_of_kind_step(all, taken, Kind::Song);
                lemma_hits_of_kind_step(all, taken, Kind::Artist);
                lemma_hits_of_kind_step(all, taken, Kind::Album);
                lemma_hits_of_kind_step(all, taken, Kind::Playlist);
                lemma_capped_push(hits_of_kind(all.take(taken), Kind::Song), hit, songs@);
                lemma_capped_push(hits_of_kind(all.take(taken), Kind::Artist), hit, artists@);
                lemma_capped_push(hits_of_kind(all.take(taken), Kind::Album), hit, albums@);
                lemma_capped_push(hits_of_kind(all.take(taken), Kind::Playlist), hit, playlists@);
            }
            match hit.kind() {
                Kind::Song => if songs.len() < MAX_PER_KIND {
                    songs.push(hit);
                },
                Kind::Artist => if artists.len() < MAX_PER_KIND {
                    artists.push(hit);
                },
                Kind::Album => if albums.len() < MAX_PER_KIND {
                    albums.push(hit);
                },
                Kind::Playlist => if playlists.len() < MAX_PER_KIND {
                    playlists.push(hit);
                },
            }
        }
        proof {
            assert(all.take(all.len() as int) =~= all);
        }
        let mut items = songs;
        items.append(&mut artists);
        items.append(&mut albums);
        items.append(&mut playlists);
        let len = items.len();
        let selected = match self.selected {
            Some(i) => if i < len {
                Some(i)
            } else if len == 0 {
                None
            } else {
                Some(len - 1)
            },
            None => None,
        };
        self.selected = None;
        self.items = items;
        self.selected = selected;
    }

    /// Moves the selection down one result, stopping at the last; from no selection it goes to
    /// the first. With no results nothing happens and false comes back.
    pub fn select_next(&mut self) -> (moved: bool)
        ensures
            moved == (old(self)@.items.len() > 0),
            final(self)@.open == old(self)@.open,
            final(self)@.restore == old(self)@.restore,
            final(self)@.playback_status == old(self)@.playback_status,
            final(self)@.items == old(self)@.items,
            final(self)@.selected == next_selection(old(self)@.selected, old(self)@.items.len()),
            final(self)@.selection_valid(),
    {
        proof {
            use_type_invariant(&*self);
        }
        let len = self.items.len();
        if len == 0 {
            return false;
        }
        let next = match self.selected {
            None => 0,
            Some(i) => if i + 1 < len { i + 1 } else { len - 1 },
        };
        self.selected = Some(next);
        true
    }

    /// Moves the selection up one result; from the first it leaves the list for the query field.
    pub fn select_previous(&mut self) -> (focus: SelectionFocus)
        ensures
            final(self)@.open == old(self)@.open,
            final(self)@.restore == old(self)@.restore,
            final(self)@.playback_status == old(self)@.playback_status,
            final(self)@.items == old(self)@.items,
            final(self)@.selected == previous_selection(old(self)@.selected),
            old(self)@.selected is None ==> focus == SelectionFocus::Unchanged,
            old(self)@.selected == Some(0usize) ==> focus == SelectionFocus::Input,
            old(self)@.selected matches Some(i) && i > 0 ==> focus == SelectionFocus::List,
            final(self)@.selection_valid(),
    {
        proof {
            use_type_invariant(&*self);
        }
        match self.selected {
            None => SelectionFocus::Unchanged,
            Some(i) => {
                if i == 0 {
                    self.selected = None;
                    SelectionFocus::Input
                } else {
                    self.selected = Some(i - 1);
                    SelectionFocus::List
                }
            },
        }
    }

    /// The positions where a run of one kind begins, in increasing order.
    pub fn category_starts(&self) -> (starts: Vec<usize>)
        ensures
            forall|a: int, b: int| 0 <= a < b < starts@.len() ==> starts@[a] < starts@[b],
            forall|a: int| 0 <= a < starts@.len() ==> starts_category(self@.items, #[trigger] starts@[a] as int),
            forall|i: int| #[trigger] starts_category(self@.items, i) ==> starts@.contains(i as usize),
    {
        proof {
            use_type_invariant(&*self);
        }
        let ghost items = self@.items;
        let mut starts: Vec<usize> = Vec::new();
        let mut last_kind: Option<Kind> = None;
        let n = self.items.len();
        let mut i: usize = 0;
        while i < n
            invariant
                n == items.len(),
                items == self@.items,
                i <= n,
                i == 0 ==> last_kind is None,
                i > 0 ==> last_kind == Some(items[i - 1].kind_of()),
                forall|a: int, b: int| 0 <= a < b < starts@.len() ==> starts@[a] < starts@[b],
                forall|a: int| 0 <= a < starts@.len() ==> starts@[a] < i,
                forall|a: int| 0 <= a < starts@.len() ==> starts_category(items, #[trigger] starts@[a] as int),
                forall|j: int| 0 <= j < i && #[trigger] starts_category(items, j) ==> starts@.contains(j as usize),
            decreases n - i,
        {
            let kind = self.items[i].kind();
            let opens = match last_kind {
                None => true,
                Some(k) => k != kind,
            };
            if opens {
                proof {
                    assert(starts_category(items, i as int));
                }
                let ghost prev = starts@;
                starts.push(i);
                last_kind = Some(kind);
                proof {
                    assert forall|j: int| 0 <= j < i + 1 && #[trigger] starts_category(items, j) implies starts@.contains(j as usize) by {
                        if j == i {
                            assert(starts@[prev.len() as int] == i);
                        } else {
                            assert(prev.contains(j as usize));
                            let a = choose|a: int| 0 <= a < prev.len() && prev[a] == j as usize;
                            assert(starts@[a] == j as usize);
                        }
                    }
                }
            } else {
                proof {
                    assert(!starts_category(items, i as int));
                }
            }
            i = i + 1;
        }
        starts
    }

    /// Moves the selection to the start of the next category, or back to the first result from
    /// the last category. With no selection it moves from the first result. With no results
    /// nothing happens and false comes back.
    pub fn select_next_category(&mut self) -> (moved: bool)
        ensures
            moved == (old(self)@.items.len() > 0),
            final(self)@.open == old(self)@.open,
            final(self)@.restore == old(self)@.restore,
            final(self)@.playback_status == old(self)@.playback_status,
            final(self)@.items == old(self)@.items,
            !moved ==> final(self)@.selected == old(self)@.selected,
            moved ==> (final(self)@.selected matches Some(n) && is_next_category(
                old(self)@.items,
                category_origin(old(self)@.selected),
                n as int,
            )),
            final(self)@.selection_valid(),
    {
        proof {
            use_type_invariant(&*self);
        }
        let ghost items = self@.items;
        let total = self.items.len();
        let starts = self.category_starts();
        if starts.len() == 0 {
            proof {
                if items.len() > 0 {
                    assert(starts_category(items, 0));
                    assert(starts@.contains(0usize));
                }
            }
            return false;
        }
        let current = match self.selected {
            Some(i) => i,
            None => 0,
        };
        let mut k: usize = 0;
        while k < starts.len() && starts[k] <= current
            invariant
                k <= starts@.len(),
                forall|a: int| 0 <= a < k ==> starts@[a] <= current,
            decreases starts@.len() - k,
        {
            k = k + 1;
        }
        let next = if k < starts.len() {
            starts[k]
        } else {
            starts[0]
        };
        proof {
            assert(items.len() == total);
            assert(starts_category(items, 0)) by {
                assert(starts_category(items, starts@[0] as int));
            }
            let z = choose|a: int| 0 <= a < starts@.len() && starts@[a] == 0usize;
            assert(starts@[0] == 0usize) by {
                if z > 0 {
                    assert(starts@[0] < starts@[z]);
                }
            }
            if k < starts@.len() {
                assert forall|j: int| current < j < next implies !#[trigger] starts_category(items, j) by {
                    if starts_category(items, j) {
                        assert(starts@.contains(j as usize));
                        let a = choose|a: int| 0 <= a < starts@.len() && starts@[a] == j as usize;
                        if a < k {
                        } else if a > k {
                            assert(starts@[k as int] < starts@[a]);
                        }
                    }
                }
            } else {
                assert forall|j: int| current < j implies !#[trigger] starts_category(items, j) by {
                    if starts_category(items, j) {
                        assert(starts@.contains(j as usize));
                        let a = choose|a: int| 0 <= a < starts@.len() && starts@[a] == j as usize;
                    }
                }
            }
            assert(starts_category(items, next as int));
        }
        self.selected = Some(next);
        true
    }

    /// Moves the selection to the start of the previous category, or to the start of the last
    /// category from the first result. With no selection it moves from the first result. With
    /// no results nothing happens and false comes back.
    pub fn select_prev_category(&mut self) -> (moved: bool)
        ensures
            moved == (old(self)@.items.len() > 0),
            final(self)@.open == old(self)@.open,
            final(self)@.restore == old(self)@.restore,
            final(self)@.playback_status == old(self)@.playback_status,
            final(self)@.items == old(self)@.items,
            !moved ==> final(self)@.selected == old(self)@.selected,
            moved ==> (final(self)@.selected matches Some(n) && is_previous_category(
                old(self)@.items,
                category_origin(old(self)@.selected),
                n as int,
            )),
            final(self)@.selection_valid(),
    {
        proof {
            use_type_invariant(&*self);
        }
        let ghost items = self@.items;
        let total = self.items.len();
        let starts = self.category_starts();
        if starts.len() == 0 {
            proof {
                if items.len() > 0 {
                    assert(starts_category(items, 0));
                    assert(starts@.contains(0usize));
                }
            }
            return false;
        }
        let current = match self.selected {
            Some(i) => i,
            None => 0,
        };
        let mut k: usize = 0;
        while k < starts.len() && starts[k] < current
            invariant
                k <= starts@.len(),
                forall|a: int| 0 <= a < k ==> starts@[a] < current,
            decreases starts@.len() - k,
        {
            k = k + 1;
        }
        let last = starts.len() - 1;
        let prev = if k > 0 {
            starts[k - 1]
        } else {
            starts[last]
        };
        proof {
            assert(items.len() == total);
            assert(starts_category(items, starts@[k - 1] as int) || k == 0);
            assert(starts_category(items, starts@[last as int] as int));
            if k > 0 {
                assert forall|j: int| prev < j < current implies !#[trigger] starts_category(items, j) by {
                    if starts_category(items, j) {
                        assert(starts@.contains(j as usize));
                        let a = choose|a: int| 0 <= a < starts@.len() && starts@[a] == j as usize;
                        if a < k - 1 {
                            assert(starts@[a] < starts@[k - 1]);
                        } else if a >= k {
                            if a > k {
                                assert(starts@[k as int] < starts@[a]);
                            }
                        }
                    }
                }
            } else {
                assert forall|j: int| j < current implies !#[trigger] starts_category(items, j) by {
                    if starts_category(items, j) {
                        assert(starts@.contains(j as usize));
                        let a = choose|a: int| 0 <= a < starts@.len() && starts@[a] == j as usize;
                        if a > 0 {
                            assert(starts@[0] < starts@[a]);
                        }
                    }
                }
                assert forall|j: int| prev < j implies !#[trigger] starts_category(items, j) by {
                    if starts_category(items, j) {
                        assert(starts@.contains(j as usize));
                        let a = choose|a: int| 0 <= a < starts@.len() && starts@[a] == j as usize;
                        if a < last {
                            assert(starts@[a] < starts@[last as int]);
                        }
                    }
                }
            }
        }
        self.selected = Some(prev);
        true
    }

    /// The selected result, if any.
    pub fn selected_hit(&self) -> (hit: Option<&Hit>)
        ensures
            match self@.selected {
                Some(i) => hit matches Some(h) && *h == self@.items[i as int],
                None => hit is None,
            },
    {
        proof {
            use_type_invariant(&*self);
        }
        match self.selected {
            Some(i) => Some(&self.items[i]),
            None => None,
        }
    }

    /// Confirms the bar: gives the position of the result to open (the selected one, else the
    /// first) and closes the bar, handing back the element to focus.
    pub fn activate(&mut self) -> (confirmed: Confirmed<F>)
        ensures
            confirmed.target == confirm_target(old(self)@),
            confirmed.target matches Some(i) ==> i < old(self)@.items.len(),
            confirmed.restore == old(self)@.restore,
            final(self)@ == closed_view(old(self)@),
            final(self)@.selection_valid(),
    {
        proof {
            use_type_invariant(&*self);
        }
        let target = match self.selected {
            Some(i) => Some(i),
            None => if self.items.len() > 0 {
                Some(0)
            } else {
                None
            },
        };
        let restore = self.close();
        Confirmed { target, restore }
    }

    /// Confirms the bar for playing: gives the position of the result to play (the selected
    /// one, else the first) and closes the bar, handing back the element to focus.
    pub fn play_confirm(&mut self) -> (confirmed: Confirmed<F>)
        ensures
            confirmed.target == confirm_target(old(self)@),
            confirmed.target matches Some(i) ==> i < old(self)@.items.len(),
            confirmed.restore == old(self)@.restore,
            final(self)@ == closed_view(old(self)@),
            final(self)@.selection_valid(),
    {
        proof {
            use_type_invariant(&*self);
        }
        self.activate()
    }
}

proof fn lemma_hits_of_kind_concat(a: Seq<Hit>, b: Seq<Hit>, kind: Kind)
    ensures
        hits_of_kind(a + b, kind) == hits_of_kind(a, kind) + hits_of_kind(b, kind),
    decreases b.len(),
{
    if b.len() == 0 {
        assert(a + b =~= a);
        assert(hits_of_kind(a, kind) + hits_of_kind(b, kind) =~= hits_of_kind(a, kind));
    } else {
        lemma_hits_of_kind_concat(a, b.drop_last(), kind);
        assert((a + b).drop_last() =~= a + b.drop_last());
        assert((a + b).last() == b.last());
        if b.last().kind_of() == kind {
            assert(hits_of_kind(a, kind) + hits_of_kind(b.drop_last(), kind).push(b.last())
                =~= (hits_of_kind(a, kind) + hits_of_kind(b.drop_last(), kind)).push(b.last()));
        }
    }
}

proof fn lemma_hits_of_kind_all_match(hits: Seq<Hit>, kind: Kind)
    ensures
        forall|j: int|
            0 <= j < hits_of_kind(hits, kind).len() ==> #[trigger] hits_of_kind(hits, kind)[j].kind_of()
                == kind,
    decreases hits.len(),
{
    if hits.len() > 0 {
        lemma_hits_of_kind_all_match(hits.drop_last(), kind);
    }
}

proof fn lemma_hits_of_kind_uniform(hits: Seq<Hit>, of: Kind, kind: Kind)
    requires
        forall|j: int| 0 <= j < hits.len() ==> #[trigger] hits[j].kind_of() == of,
    ensures
        hits_of_kind(hits, kind) == (if of == kind {
            hits
        } else {
            Seq::<Hit>::empty()
        }),
    decreases hits.len(),
{
    if hits.len() > 0 {
        let before = hits.drop_last();
        assert forall|j: int| 0 <= j < before.len() implies #[trigger] before[j].kind_of() == of by {
            assert(before[j] == hits[j]);
        }
        lemma_hits_of_kind_uniform(before, of, kind);
        assert(hits.last().kind_of() == of);
        if of == kind {
            assert(before.push(hits.last()) =~= hits);
        }
    }
}

proof fn lemma_capped_of_kind(hits: Seq<Hit>, of: Kind, kind: Kind)
    ensures
        hits_of_kind(capped(hits_of_kind(hits, of)), kind) == (if of == kind {
            capped(hits_of_kind(hits, of))
        } else {
            Seq::<Hit>::empty()
        }),
{
    let s = hits_of_kind(hits, of);
    lemma_hits_of_kind_all_match(hits, of);
    let c = capped(s);
    assert forall|j: int| 0 <= j < c.len() implies #[trigger] c[j].kind_of() == of by {
        assert(c[j] == s[j]);
    }
    lemma_hits_of_kind_uniform(c, of, kind);
}

/// The bar shows, of each kind, exactly the first `MAX_PER_KIND` results the search gave for
/// that kind (all of them when there are fewer), so never more than `MAX_PER_KIND` of one kind.
pub proof fn law_shown_hits_per_kind(hits: Seq<Hit>, kind: Kind)
    ensures
        hits_of_kind(shown_hits(hits), kind) == capped(hits_of_kind(hits, kind)),
        hits_of_kind(shown_hits(hits), kind).len() <= MAX_PER_KIND,
{
    let c1 = capped(hits_of_kind(hits, Kind::Song));
    let c2 = capped(hits_of_kind(hits, Kind::Artist));
    let c3 = capped(hits_of_kind(hits, Kind::Album));
    let c4 = capped(hits_of_kind(hits, Kind::Playlist));
    lemma_hits_of_kind_concat(c1 + c2 + c3, c4, kind);
    lemma_hits_of_kind_concat(c1 + c2, c3, kind);
    lemma_hits_of_kind_concat(c1, c2, kind);
    lemma_capped_of_kind(hits, Kind::Song, kind);
    lemma_capped_of_kind(hits, Kind::Artist, kind);
    lemma_capped_of_kind(hits, Kind::Album, kind);
    lemma_capped_of_kind(hits, Kind::Playlist, kind);
    let e = Seq::<Hit>::empty();
    match kind {
        Kind::Song => {
            assert(c1 + e + e + e =~= c1);
        },
        Kind::Artist => {
            assert(e + c2 + e + e =~= c2);
        },
        Kind::Album => {
            assert(e + e + c3 + e =~= c3);
        },
        Kind::Playlist => {
            assert(e + e + e + c4 =~= c4);
        },
    }
}

/// Moving down and then up gives the selection back, unless it stood on the last result.
pub proof fn law_previous_undoes_next(selected: Option<usize>, len: nat)
    requires
        0 < len <= usize::MAX,
        selected matches Some(i) ==> i + 1 < len,
    ensures
        previous_selection(next_selection(selected, len)) == selected,
{
}

/// Toggling twice leaves the bar shown or hidden as it was, with the same results; a bar shown
/// and closed again gives back the element that had the focus.
pub proof fn law_toggle_twice<F, S>(v: PowerbarView<F, S>, first: Option<F>, second: Option<F>)
    ensures
        toggled_view(toggled_view(v, first), second).open == v.open,
        toggled_view(toggled_view(v, first), second).items == v.items,
        toggled_view(toggled_view(v, first), second).selected is None,
        !v.open ==> toggled_view(v, first).restore == first && toggled_view(
            toggled_view(v, first),
            second,
        ).restore is None,
{
}

} // verus!
