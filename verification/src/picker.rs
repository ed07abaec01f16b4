//! The interactive picker's decisions: which rows the filter shows, where
//! the selection goes, and what each key does. Drawing the screen and
//! reading keys is left to the caller, which feeds keys in one at a time.
use vstd::prelude::*;

use crate::text::{chars_of, contains_exec, find, lemma_find_iff_occurs, occurs_in};

verus! {

/// The Unicode lowercase of a string, as `str::to_lowercase` gives it (a
/// character's lowercase may depend on its neighbours, as a final Greek
/// sigma's does); the mapping is named, not written out.
pub uninterp spec fn lowercase(s: Seq<char>) -> Seq<char>;

/// `str::to_lowercase`: the Unicode lowercase of `s`. Its result depends on
/// `s` alone; what that mapping is, is left to the name.
#[verifier::external_body]
fn to_lowercase(s: &str) -> (r: String)
    ensures
        r@ == lowercase(s@),
{
    s.to_lowercase()
}

/// What a row is matched against: its title, or its URL when it has none.
pub open spec fn row_text(row: (Option<Seq<char>>, Seq<char>)) -> Seq<char> {
    match row.0 {
        Some(t) => t,
        None => row.1,
    }
}

/// A row as the picker sees it: an optional title and a URL.
#[derive(Debug)]
pub struct PickerRow {
    pub title: Option<String>,
    pub url: String,
}

impl View for PickerRow {
    type V = (Option<Seq<char>>, Seq<char>);

    open spec fn view(&self) -> (Option<Seq<char>>, Seq<char>) {
        (
            match self.title {
                Some(t) => Some(t@),
                None => None,
            },
            self.url@,
        )
    }
}

/// The row is shown under `filter`: always when the filter is empty, else
/// when the lowercased filter occurs in the row's lowercased text.
pub open spec fn row_shown(row: (Option<Seq<char>>, Seq<char>), filter: Seq<char>) -> bool {
    filter.len() == 0 || find(lowercase(row_text(row)), lowercase(filter)) is Some
}

/// The indices, in order, of the rows shown under `filter`.
pub fn filter_entries(rows: &Vec<PickerRow>, filter: &str) -> (r: Vec<usize>)
    ensures
        forall|k: int| 0 <= k < r@.len() ==> #[trigger] r@[k] < rows@.len() && row_shown(rows@[r@[k] as int]@, filter@),
        forall|k1: int, k2: int| 0 <= k1 < k2 < r@.len() ==> #[trigger] r@[k1] < #[trigger] r@[k2],
        forall|i: int|
            0 <= i < rows@.len() && row_shown(rows@[i]@, filter@) ==> exists|k: int|
                0 <= k < r@.len() && #[trigger] r@[k] == i,
{
    let empty = filter.is_empty();
    let needle_s = to_lowercase(filter);
    let needle = chars_of(needle_s.as_str());
    let mut r: Vec<usize> = Vec::new();
    let mut i: usize = 0;
    while i < rows.len()
        invariant
            i <= rows.len(),
            empty == (filter@.len() == 0),
            needle@ == lowercase(filter@),
            forall|k: int| 0 <= k < r@.len() ==> #[trigger] r@[k] < i && row_shown(rows@[r@[k] as int]@, filter@),
            forall|k1: int, k2: int| 0 <= k1 < k2 < r@.len() ==> #[trigger] r@[k1] < #[trigger] r@[k2],
            forall|j: int|
                0 <= j < i && row_shown(rows@[j]@, filter@) ==> exists|k: int|
                    0 <= k < r@.len() && #[trigger] r@[k] == j,
        decreases rows.len() - i,
    {
        let shown = if empty {
            true
        } else {
            let text = match &rows[i].title {
                Some(t) => t.as_str(),
                None => rows[i].url.as_str(),
            };
            let hay_s = to_lowercase(text);
            let hay = chars_of(hay_s.as_str());
            contains_exec(&hay, &needle)
        };
        let ghost old_r = r@;
        if shown {
            r.push(i);
        }
        assert forall|j: int|
            0 <= j < i + 1 && row_shown(rows@[j]@, filter@) implies exists|k: int|
                0 <= k < r@.len() && #[trigger] r@[k] == j by {
            if j < i {
                let k = choose|k: int| 0 <= k < old_r.len() && #[trigger] old_r[k] == j;
                assert(r@[k] == j);
            } else {
                assert(r@[r@.len() - 1] == j);
            }
        }
        i += 1;
    }
    r
}

/// What the filter matches against: under an empty filter every row is
/// shown; under any other, a row with a title is shown exactly when the
/// lowercased filter occurs in its lowercased title (its URL plays no
/// part), and a row without one exactly when the lowercased filter occurs
/// in its lowercased URL.
pub proof fn law_filter_matches_title_else_url(title: Option<Seq<char>>, url: Seq<char>, filter: Seq<char>)
    ensures
        filter.len() == 0 ==> row_shown((title, url), filter),
        filter.len() > 0 && title is Some ==> (row_shown((title, url), filter) <==> occurs_in(
            lowercase(title->Some_0),
            lowercase(filter),
        )),
        filter.len() > 0 && title is None ==> (row_shown((title, url), filter) <==> occurs_in(
            lowercase(url),
            lowercase(filter),
        )),
{
    match title {
        Some(t) => lemma_find_iff_occurs(lowercase(t), lowercase(filter)),
        None => lemma_find_iff_occurs(lowercase(url), lowercase(filter)),
    }
}

/// Which part of the picker takes the keys.
#[derive(Debug, Clone, Copy, PartialEq, Eq, Structural)]
pub enum Focus {
    List,
    Filter,
}

/// A key press, as the picker distinguishes them.
#[derive(Debug, Clone, Copy, PartialEq, Eq, Structural)]
pub enum Key {
    /// Ctrl+C, which quits from anywhere.
    CtrlC,
    Char(char),
    Esc,
    Enter,
    Backspace,
    Up,
    Down,
    PageUp,
    PageDown,
    Home,
    End,
    Other,
}

/// What the caller does after a key.
#[derive(Debug, Clone, Copy, PartialEq, Eq, Structural)]
pub enum PickerAction {
    /// Redraw and read the next key.
    Continue,
    /// Leave without choosing.
    Quit,
    /// Play the shown row at this position.
    Play(usize),
    /// Forget the video of the shown row at this position.
    Delete(usize),
}

/// The picker's state between keys.
#[derive(Debug)]
pub struct PickerState {
    pub filter: String,
    pub focus: Focus,
    pub selected: Option<usize>,
    pub audio_only: bool,
}

/// The selection fits a list of `len` shown rows: none exactly when there
/// are no rows, else a valid position.
pub open spec fn selection_fits(selected: Option<usize>, len: nat) -> bool {
    match selected {
        None => len == 0,
        Some(i) => i < len,
    }
}

/// The selection moved by `delta` and clamped into the list; unchanged when
/// the list is empty.
pub open spec fn moved(selected: Option<usize>, len: nat, delta: int) -> Option<usize> {
    if len == 0 {
        selected
    } else {
        let current = match selected {
            Some(i) => i as int,
            None => 0,
        };
        let next = current + delta;
        Some(
            (if next < 0 {
                0
            } else if next > len - 1 {
                len - 1
            } else {
                next
            }) as usize,
        )
    }
}

/// Moves a selection by `delta` rows, clamped to the list of `len` rows.
pub fn move_selection(selected: Option<usize>, len: usize, delta: i32) -> (r: Option<usize>)
    ensures
        r == moved(selected, len as nat, delta as int),
{
    if len == 0 {
        return selected;
    }
    let current: i128 = match selected {
        Some(i) => i as i128,
        None => 0,
    };
    let next: i128 = current + delta as i128;
    let last: i128 = (len - 1) as i128;
    if next < 0 {
        Some(0)
    } else if next > last {
        Some(len - 1)
    } else {
        Some(next as usize)
    }
}

impl PickerState {
    /// The picker as it opens: empty filter, list focused, first row
    /// selected, audio-only off.
    pub fn new() -> (s: Self)
        ensures
            s.filter@.len() == 0,
            s.focus == Focus::List,
            s.selected == Some(0usize),
            !s.audio_only,
    {
        PickerState { filter: String::new(), focus: Focus::List, selected: Some(0), audio_only: false }
    }

    /// Brings the selection back into a list of `len` shown rows before
    /// drawing: past the end goes to the last row, none goes to the first,
    /// and an empty list has none.
    pub fn settle_selection(&mut self, len: usize)
        ensures
            final(self).filter == old(self).filter,
            final(self).focus == old(self).focus,
            final(self).audio_only == old(self).audio_only,
            selection_fits(final(self).selected, len as nat),
            len > 0 ==> final(self).selected == (match old(self).selected {
                Some(i) => if i >= len {
                    Some((len - 1) as usize)
                } else {
                    Some(i)
                },
                None => Some(0usize),
            }),
    {
        let current = match self.selected {
            Some(i) => i,
            None => 0,
        };
        if current >= len && len > 0 {
            self.selected = Some(len - 1);
        }
        if len == 0 {
            self.selected = None;
        } else if self.selected.is_none() {
            self.selected = Some(0);
        }
    }

    /// Applies a key to the picker, with `len` rows shown. In the filter,
    /// Esc and Enter return to the list, Backspace drops the filter's last
    /// character and other characters are appended. In the list, `q` and
    /// Esc quit, `/` edits the filter, `a` toggles audio-only, arrows and
    /// `j`/`k` move by one, PageUp/PageDown by ten, Home/End go to the ends,
    /// `d` deletes and Enter plays the selected row. Ctrl+C quits anywhere.
    pub fn handle_key(&mut self, key: Key, len: usize) -> (action: PickerAction)
        requires
            selection_fits(old(self).selected, len as nat),
        ensures
            selection_fits(final(self).selected, len as nat),
            final(self).audio_only == (old(self).audio_only != (old(self).focus == Focus::List
                && key == Key::Char('a'))),
            key == Key::CtrlC ==> action == PickerAction::Quit && final(self).filter == old(self).filter,
            old(self).focus == Focus::Filter && key != Key::CtrlC ==> action == PickerAction::Continue
                && final(self).selected == old(self).selected && match key {
                Key::Esc | Key::Enter => final(self).focus == Focus::List && final(self).filter
                    == old(self).filter,
                Key::Backspace => final(self).focus == Focus::Filter && final(self).filter@ == (
                if old(self).filter@.len() == 0 {
                    old(self).filter@
                } else {
                    old(self).filter@.drop_last()
                }),
                Key::Char(c) => final(self).focus == Focus::Filter && final(self).filter@
                    == old(self).filter@.push(c),
                _ => final(self).focus == Focus::Filter && final(self).filter == old(self).filter,
            },
            old(self).focus == Focus::List && key != Key::CtrlC ==> final(self).filter
                == old(self).filter && match key {
                Key::Char('q') | Key::Esc => action == PickerAction::Quit,
                Key::Char('/') => action == PickerAction::Continue && final(self).focus
                    == Focus::Filter && final(self).selected == old(self).selected,
                Key::Down | Key::Char('j') => action == PickerAction::Continue && final(self).focus
                    == Focus::List && final(self).selected == moved(
                    old(self).selected,
                    len as nat,
                    1,
                ),
                Key::Up | Key::Char('k') => action == PickerAction::Continue && final(self).focus
                    == Focus::List && final(self).selected == moved(
                    old(self).selected,
                    len as nat,
                    -1,
                ),
                Key::PageDown => action == PickerAction::Continue && final(self).focus
                    == Focus::List && final(self).selected == moved(
                    old(self).selected,
                    len as nat,
                    10,
                ),
                Key::PageUp => action == PickerAction::Continue && final(self).focus
                    == Focus::List && final(self).selected == moved(
                    old(self).selected,
                    len as nat,
                    -10,
                ),
                Key::Home => action == PickerAction::Continue && final(self).focus == Focus::List
                    && final(self).selected == (if len > 0 {
                    Some(0usize)
                } else {
                    old(self).selected
                }),
                Key::End => action == PickerAction::Continue && final(self).focus == Focus::List
                    && final(self).selected == (if len > 0 {
                    Some((len - 1) as usize)
                } else {
                    old(self).selected
                }),
                Key::Char('d') => final(self).focus == Focus::List && final(self).selected
                    == old(self).selected && action == match old(self).selected {
                    Some(i) => PickerAction::Delete(i),
                    None => PickerAction::Continue,
                },
                Key::Enter => final(self).focus == Focus::List && final(self).selected
                    == old(self).selected && action == match old(self).selected {
                    Some(i) => PickerAction::Play(i),
                    None => PickerAction::Continue,
                },
                _ => action == PickerAction::Continue && final(self).focus == Focus::List
                    && final(self).selected == old(self).selected,
            },
    {
        if key == Key::CtrlC {
            return PickerAction::Quit;
        }
        match self.focus {
            Focus::Filter => {
                match key {
                    Key::Esc | Key::Enter => {
                        self.focus = Focus::List;
                    },
                    Key::Backspace => {
                        let v = chars_of(self.filter.as_str());
                        if v.len() > 0 {
                            let s = crate::text::string_of(&v, 0, v.len() - 1);
                            assert(v@.subrange(0, v@.len() - 1) =~= v@.drop_last());
                            self.filter = s;
                        }
                    },
                    Key::Char(c) => {
                        let mut v = chars_of(self.filter.as_str());
                        v.push(c);
                        self.filter = crate::text::string_of_all(&v);
                    },
                    _ => {},
                }
                PickerAction::Continue
            },
            Focus::List => {
                match key {
                    Key::Char('q') | Key::Esc => PickerAction::Quit,
                    Key::Char('/') => {
                        self.focus = Focus::Filter;
                        PickerAction::Continue
                    },
                    Key::Char('a') => {
                        self.audio_only = !self.audio_only;
                        PickerAction::Continue
                    },
                    Key::Down | Key::Char('j') => {
                        self.selected = move_selection(self.selected, len, 1);
                        PickerAction::Continue
                    },
                    Key::Up | Key::Char('k') => {
                        self.selected = move_selection(self.selected, len, -1);
                        PickerAction::Continue
                    },
                    Key::PageDown => {
                        self.selected = move_selection(self.selected, len, 10);
                        PickerAction::Continue
                    },
                    Key::PageUp => {
                        self.selected = move_selection(self.selected, len, -10);
                        PickerAction::Continue
                    },
                    Key::Home => {
                        if len > 0 {
                            self.selected = Some(0);
                        }
                        PickerAction::Continue
                    },
                    Key::End => {
                        if len > 0 {
                            self.selected = Some(len - 1);
                        }
                        PickerAction::Continue
                    },
                    Key::Char('d') => match self.selected {
                        Some(i) => PickerAction::Delete(i),
                        None => PickerAction::Continue,
                    },
                    Key::Enter => match self.selected {
                        Some(i) => PickerAction::Play(i),
                        None => PickerAction::Continue,
                    },
                    _ => PickerAction::Continue,
                }
            },
        }
    }
}

} // verus!
