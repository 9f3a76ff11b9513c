//! The input history: scrollback over entered lines.
//!
//! The history keeps two primary copies of past input lines — the lines
//! entered in this session, oldest first, and the lines loaded from earlier
//! sessions, most recent first — plus one sparse "current" copy that the user
//! navigates and edits. Editing a historical line changes only the current
//! copy; the primaries never change except by appending. Index `0` of the
//! current copy is the line being composed; indices `1..` walk backwards
//! through the session's lines and then through the loaded ones.
//!
//! Loading older lines is the persistence collaborator's work: when
//! `earlier_line_needs_db` says so, the caller fetches one line and hands it
//! (or the news that none is left) to `note_db_line` before navigating.
//! Likewise `input_finished` resets the editor and returns the finished line
//! for the collaborator to persist.

use vstd::prelude::*;

verus! {

use vstd::utf8::is_ascii_chars;

use crate::text::{string_insert_char, string_remove_char};

/// The scrollback editor's state.
#[derive(Debug)]
pub struct InputHistory {
    /// Lines entered during this session, oldest at index `0`. Only
    /// `input_finished` appends to it.
    pub primary_internal_history: Vec<String>,
    /// Lines loaded from earlier sessions, most recent at index `0`,
    /// populated lazily by `note_db_line`.
    pub primary_db_history: Vec<String>,
    /// The navigable copy: entry `0` is the line being composed; a `None`
    /// entry stands for the unchanged primary line it shadows.
    pub current_history: Vec<Option<String>>,
    /// The entry of `current_history` being displayed and edited.
    pub current_index: usize,
    /// Whether the persistence collaborator has no older lines left. Always
    /// true when the history was created without one.
    pub db_history_exhausted: bool,
}

impl InputHistory {
    /// The editor's invariant: the current copy always has the composition
    /// entry, the index stays inside it, every shadow entry points at a
    /// primary line, and all text is ASCII.
    pub open spec fn wf(&self) -> bool {
        &&& 1 <= self.current_history@.len() <= self.primary_internal_history@.len()
            + self.primary_db_history@.len() + 1
        &&& self.current_index < self.current_history@.len()
        &&& self.current_history@[0] is Some
        &&& forall|k: int|
            0 <= k < self.current_history@.len() ==> match #[trigger] self.current_history@[k] {
                Some(s) => is_ascii_chars(s@),
                None => k >= 1,
            }
        &&& forall|k: int|
            0 <= k < self.primary_internal_history@.len() ==> is_ascii_chars(
                (#[trigger] self.primary_internal_history@[k])@,
            )
        &&& forall|k: int|
            0 <= k < self.primary_db_history@.len() ==> is_ascii_chars(
                (#[trigger] self.primary_db_history@[k])@,
            )
    }

    /// The characters of the line entry `k` shows: its own text when it was
    /// edited, otherwise the primary line it shadows.
    pub open spec fn spec_line_at(&self, k: int) -> Seq<char> {
        match self.current_history@[k] {
            Some(s) => s@,
            None => if k <= self.primary_internal_history@.len() {
                (self.primary_internal_history@[self.primary_internal_history@.len() - k])@
            } else {
                (self.primary_db_history@[k - self.primary_internal_history@.len() - 1])@
            },
        }
    }

    /// The characters of the line currently displayed.
    pub open spec fn spec_current_line(&self) -> Seq<char> {
        self.spec_line_at(self.current_index as int)
    }

    pub fn new(use_db: bool) -> (r: InputHistory)
        ensures
            r.wf(),
            r.primary_internal_history@.len() == 0,
            r.primary_db_history@.len() == 0,
            r.current_history@.len() == 1,
            r.current_index == 0,
            r.db_history_exhausted == !use_db,
            r.spec_current_line() == Seq::<char>::empty(),
    {
        proof {
            reveal_strlit("");
        }
        let mut current_history: Vec<Option<String>> = Vec::new();
        current_history.push(Some(String::from_str("")));
        InputHistory {
            primary_internal_history: Vec::new(),
            primary_db_history: Vec::new(),
            current_history,
            current_index: 0,
            db_history_exhausted: !use_db,
        }
    }

    /// The line currently displayed (what the user sees and edits).
    pub fn current_line(&self) -> (r: &str)
        requires
            self.wf(),
        ensures
            r@ == self.spec_current_line(),
            is_ascii_chars(r@),
    {
        match &self.current_history[self.current_index] {
            Some(item) => item.as_str(),
            None => {
                if self.current_index <= self.primary_internal_history.len() {
                    self.primary_internal_history[self.primary_internal_history.len()
                        - self.current_index].as_str()
                } else {
                    self.primary_db_history[self.current_index
                        - self.primary_internal_history.len() - 1].as_str()
                }
            },
        }
    }

    /// Finishes the line being composed: appends it to the session history,
    /// resets the editor to a fresh composition line, and returns the
    /// finished text for the persistence collaborator to store.
    pub fn input_finished(&mut self) -> (r: String)
        requires
            old(self).wf(),
        ensures
            final(self).wf(),
            r@ == old(self).spec_current_line(),
            final(self).primary_internal_history@.len() == old(
                self,
            ).primary_internal_history@.len() + 1,
            (final(self).primary_internal_history@.last())@ == old(self).spec_current_line(),
            forall|k: int|
                0 <= k < old(self).primary_internal_history@.len()
                    ==> final(self).primary_internal_history@[k] == old(
                    self,
                ).primary_internal_history@[k],
            final(self).primary_db_history@ == old(self).primary_db_history@,
            final(self).db_history_exhausted == old(self).db_history_exhausted,
            final(self).current_index == 0,
            final(self).spec_current_line() == Seq::<char>::empty(),
    {
        proof {
            reveal_strlit("");
        }
        let line = String::from_str(self.current_line());
        self.primary_internal_history.push(String::from_str(line.as_str()));
        self.current_history = Vec::new();
        self.current_history.push(Some(String::from_str("")));
        self.current_index = 0;
        line
    }

    /// Whether moving to an earlier line first needs the persistence
    /// collaborator to load one (see `note_db_line`).
    pub fn earlier_line_needs_db(&self) -> (r: bool)
        requires
            self.wf(),
        ensures
            r == (self.current_index >= self.primary_internal_history@.len()
                + self.primary_db_history@.len() && !self.db_history_exhausted),
    {
        let li = self.primary_internal_history.len();
        let ld = self.primary_db_history.len();
        self.current_index >= li && self.current_index - li >= ld && !self.db_history_exhausted
    }

    /// Records one line the persistence collaborator loaded, or — with `None`
    /// — that no older line is left, so it is never asked again.
    pub fn note_db_line(&mut self, maybe_line: Option<String>)
        requires
            old(self).wf(),
            maybe_line matches Some(s) ==> is_ascii_chars(s@),
        ensures
            final(self).wf(),
            match maybe_line {
                Some(line) => final(self).primary_db_history@ == old(
                    self,
                ).primary_db_history@.push(line) && final(self).db_history_exhausted == old(
                    self,
                ).db_history_exhausted,
                None => final(self).primary_db_history@ == old(self).primary_db_history@
                    && final(self).db_history_exhausted,
            },
            final(self).primary_internal_history@ == old(self).primary_internal_history@,
            final(self).current_history@ == old(self).current_history@,
            final(self).current_index == old(self).current_index,
    {
        match maybe_line {
            Some(line) => {
                self.primary_db_history.push(line);
            },
            None => {
                self.db_history_exhausted = true;
            },
        }
    }

    /// Moves the display one line earlier in the history, when an earlier
    /// line exists. When the collaborator may still hold older lines, ask
    /// `earlier_line_needs_db` and feed `note_db_line` first.
    pub fn try_to_go_to_earlier_line(&mut self) -> (r: bool)
        requires
            old(self).wf(),
        ensures
            final(self).wf(),
            r == (old(self).current_index < old(self).primary_internal_history@.len() + old(
                self,
            ).primary_db_history@.len()),
            r ==> final(self).current_index == old(self).current_index + 1,
            !r ==> *final(self) == *old(self),
            final(self).primary_internal_history@ == old(self).primary_internal_history@,
            final(self).primary_db_history@ == old(self).primary_db_history@,
    {
        let li = self.primary_internal_history.len();
        let ld = self.primary_db_history.len();
        if self.current_index >= li && self.current_index - li >= ld {
            return false;
        }
        if self.current_index >= self.current_history.len() - 1 {
            self.current_history.push(None);
        }
        self.current_index = self.current_index + 1;
        true
    }

    /// Moves the display one line later in the history; `false` when already
    /// at the line being composed.
    pub fn try_to_go_to_later_line(&mut self) -> (r: bool)
        requires
            old(self).wf(),
        ensures
            final(self).wf(),
            r == (old(self).current_index > 0),
            r ==> final(self).current_index == old(self).current_index - 1,
            !r ==> *final(self) == *old(self),
            final(self).primary_internal_history@ == old(self).primary_internal_history@,
            final(self).primary_db_history@ == old(self).primary_db_history@,
            final(self).current_history@ == old(self).current_history@,
    {
        if self.current_index == 0 {
            return false;
        }
        self.current_index = self.current_index - 1;
        true
    }

    /// Copies the displayed line into the current history, so that edits do
    /// not touch the primary copies.
    fn ensure_current_line_populated(&mut self)
        requires
            old(self).wf(),
        ensures
            final(self).wf(),
            final(self).current_history@[final(self).current_index as int] matches Some(s) && s@
                == old(self).spec_current_line(),
            final(self).spec_current_line() == old(self).spec_current_line(),
            final(self).current_index == old(self).current_index,
            final(self).current_history@.len() == old(self).current_history@.len(),
            forall|k: int|
                0 <= k < old(self).current_history@.len() && k != old(self).current_index
                    ==> final(self).current_history@[k] == old(self).current_history@[k],
            final(self).primary_internal_history@ == old(self).primary_internal_history@,
            final(self).primary_db_history@ == old(self).primary_db_history@,
    {
        let populated = match &self.current_history[self.current_index] {
            Some(_) => true,
            None => false,
        };
        if !populated {
            let line = String::from_str(self.current_line());
            self.current_history.set(self.current_index, Some(line));
        }
    }

    /// Inserts the character at the given position of the displayed line.
    /// The caller supplies a valid position and an ASCII character.
    pub fn insert_char_into_current_line(&mut self, index: usize, ch: char)
        requires
            old(self).wf(),
            index <= old(self).spec_current_line().len(),
            '\0' <= ch <= '\u{7f}',
        ensures
            final(self).wf(),
            final(self).spec_current_line() == old(self).spec_current_line().insert(
                index as int,
                ch,
            ),
            final(self).current_index == old(self).current_index,
            final(self).primary_internal_history@ == old(self).primary_internal_history@,
            final(self).primary_db_history@ == old(self).primary_db_history@,
    {
        self.ensure_current_line_populated();
        let mut entry = self.current_history.remove(self.current_index);
        let mut line = match entry {
            Some(s) => s,
            None => vstd::pervasive::unreached(),
        };
        string_insert_char(&mut line, index, ch);
        self.current_history.insert(self.current_index, Some(line));
    }

    /// Removes the character at the given position of the displayed line.
    /// The caller supplies a valid position.
    pub fn remove_char_from_current_line(&mut self, index: usize)
        requires
            old(self).wf(),
            index < old(self).spec_current_line().len(),
        ensures
            final(self).wf(),
            final(self).spec_current_line() == old(self).spec_current_line().remove(index as int),
            final(self).current_index == old(self).current_index,
            final(self).primary_internal_history@ == old(self).primary_internal_history@,
            final(self).primary_db_history@ == old(self).primary_db_history@,
    {
        self.ensure_current_line_populated();
        let mut entry = self.current_history.remove(self.current_index);
        let mut line = match entry {
            Some(s) => s,
            None => vstd::pervasive::unreached(),
        };
        string_remove_char(&mut line, index);
        self.current_history.insert(self.current_index, Some(line));
    }
}

/// Checks a requested maximum history size: at least one entry must be kept.
pub fn validate_max_history_size(value: i64) -> (r: Result<(), String>)
    ensures
        r is Ok <==> value >= 1,
        r matches Err(m) ==> m@ == "Maximum history size must be at least 1"@,
{
    if value < 1 {
        return Err(String::from_str("Maximum history size must be at least 1"));
    }
    Ok(())
}

} // verus!
