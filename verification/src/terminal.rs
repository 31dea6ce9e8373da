//! The terminal session: what each key does to the query, to the highlight
//! and to the session, and what the screen has to draw for it.

use crate::event_service::EventService;
use crate::results_view::{
    frame_of, repaint_down, repaint_up, row_above, row_below, Frame, Repaint, ResultsView,
    ResultsViewState,
};
use crate::search_phrase::{string_of, without_last, SearchPhrase};
use vstd::prelude::*;

verus! {

/// A key as the keyboard reports it.
#[derive(Clone, Copy, PartialEq, Eq, Structural, Debug)]
pub enum Key {
    /// A character key.
    Char(char),
    /// A character key with the control key held.
    Ctrl(char),
    Backspace,
    Enter,
    Up,
    Down,
    /// Any other key.
    Other,
}

/// What the screen and the session do after a key.
#[derive(Debug, PartialEq, Eq)]
pub enum KeyAction {
    /// Draw `character` at `column` of the query line.
    Echo { column: usize, character: char },
    /// Blank `column` of the query line.
    Erase { column: usize },
    /// Draw the rows again that a move of the highlight changed.
    Repaint(Repaint),
    /// Copy this result to the clipboard; the session is over.
    Copy(String),
    /// The session is over, with the highlighted result, if any, as its result.
    Confirm,
    /// The session is over, given up by the user.
    Cancel,
    /// Nothing.
    Ignore,
}

/// What the loop that refreshes the screen does next.
#[derive(Debug, PartialEq, Eq)]
pub enum Refresh {
    /// Draw this frame, then wait on.
    Draw(Frame),
    /// Nothing waits: wait on.
    Idle,
    /// The session is over: leave the loop.
    Stop,
}

/// What a terminal stands for.
pub struct TerminalState {
    /// Whether the session is over.
    pub search_complete: bool,
    /// The column of the query line at which the next character is drawn.
    pub character_index: nat,
    /// The results on screen.
    pub results_view: ResultsViewState,
}

/// The state of the terminal session.
pub struct Terminal {
    search_complete: bool,
    character_index: usize,
    results_view: ResultsView,
}

impl View for Terminal {
    type V = TerminalState;

    closed spec fn view(&self) -> TerminalState {
        TerminalState {
            search_complete: self.search_complete,
            character_index: self.character_index as nat,
            results_view: self.results_view@,
        }
    }
}

/// The column after `column`, or `column` itself where no column follows.
pub open spec fn next_column(column: nat) -> nat {
    if column < usize::MAX {
        column + 1
    } else {
        column
    }
}

/// The column before `column`, or column 0 at column 0.
pub open spec fn previous_column(column: nat) -> nat {
    if column > 0 {
        (column - 1) as nat
    } else {
        0
    }
}

impl Terminal {
    /// A session that has just begun: no character typed, no result on
    /// screen.
    pub fn new() -> (terminal: Terminal)
        ensures
            !terminal@.search_complete,
            terminal@.character_index == 0,
            terminal@.results_view.results == Seq::<Seq<char>>::empty(),
            terminal@.results_view.highlighted_result_row == 0,
    {
        Terminal { search_complete: false, character_index: 0, results_view: ResultsView::new() }
    }

    /// Whether the session is over.
    pub fn search_complete(&self) -> (complete: bool)
        ensures
            complete == self@.search_complete,
    {
        self.search_complete
    }

    /// Takes one key from the keyboard.
    ///
    /// A character goes behind the search phrase and on the query line;
    /// backspace takes the last character from both. Either way the phrase as
    /// it now reads is put in the queue for the filter. Control-j and the down
    /// key move the highlight down, control-k and the up key move it up.
    /// Enter ends the session; control-y ends it too and has the highlighted
    /// result copied, if there is one; control-c gives the session up. No
    /// other key does anything.
    pub fn on_stdin(
        &mut self,
        key: Key,
        search_phrase: &mut SearchPhrase,
        event_service: &mut EventService,
    ) -> (action: KeyAction)
        ensures
            final(event_service)@.file_finder_events == old(event_service)@.file_finder_events,
            match key {
                Key::Char(c) => {
                    &&& action == (KeyAction::Echo {
                        column: old(self)@.character_index as usize,
                        character: c,
                    })
                    &&& final(self)@ == (TerminalState {
                        character_index: next_column(old(self)@.character_index),
                        ..old(self)@
                    })
                    &&& final(search_phrase)@ == old(search_phrase)@.push(c)
                    &&& final(event_service)@.search_phrases == old(
                        event_service,
                    )@.search_phrases.push(final(search_phrase)@)
                },
                Key::Backspace => {
                    &&& action == (KeyAction::Erase {
                        column: previous_column(old(self)@.character_index) as usize,
                    })
                    &&& final(self)@ == (TerminalState {
                        character_index: previous_column(old(self)@.character_index),
                        ..old(self)@
                    })
                    &&& final(search_phrase)@ == without_last(old(search_phrase)@)
                    &&& final(event_service)@.search_phrases == old(
                        event_service,
                    )@.search_phrases.push(final(search_phrase)@)
                },
                _ => {
                    &&& final(search_phrase)@ == old(search_phrase)@
                    &&& final(event_service)@ == old(event_service)@
                    &&& final(self)@.character_index == old(self)@.character_index
                    &&& final(self)@.results_view.results == old(self)@.results_view.results
                },
            },
            is_move_down(key) ==> {
                &&& action matches KeyAction::Repaint(repaint)
                &&& final(self)@.search_complete == old(self)@.search_complete
                &&& final(self)@.results_view.highlighted_result_row == row_below(
                    old(self)@.results_view,
                )
                &&& repaint == repaint_down(old(self)@.results_view)
            },
            is_move_up(key) ==> {
                &&& action matches KeyAction::Repaint(repaint)
                &&& final(self)@.search_complete == old(self)@.search_complete
                &&& final(self)@.results_view.highlighted_result_row == row_above(
                    old(self)@.results_view,
                )
                &&& repaint == repaint_up(old(self)@.results_view)
            },
            key == Key::Ctrl('y') ==> {
                &&& final(self)@ == (TerminalState { search_complete: true, ..old(self)@ })
                &&& if old(self)@.results_view.highlighted_result_row > 0 {
                    &&& action matches KeyAction::Copy(text)
                    &&& text@ == old(self)@.results_view.highlighted()
                } else {
                    action is Confirm
                }
            },
            key == Key::Enter ==> {
                &&& action is Confirm
                &&& final(self)@ == (TerminalState { search_complete: true, ..old(self)@ })
            },
            key == Key::Ctrl('c') ==> {
                &&& action is Cancel
                &&& final(self)@ == (TerminalState { search_complete: true, ..old(self)@ })
            },
            is_unbound(key) ==> action is Ignore && final(self)@ == old(self)@,
    {
        match key {
            Key::Char(c) => {
                let column: usize = self.character_index;
                if self.character_index < usize::MAX {
                    self.character_index = self.character_index + 1;
                }
                search_phrase.update(string_of(c), event_service);
                proof {
                    assert(old(search_phrase)@ + seq![c] =~= old(search_phrase)@.push(c));
                }
                KeyAction::Echo { column, character: c }
            },
            Key::Backspace => {
                if self.character_index != 0 {
                    self.character_index = self.character_index - 1;
                }
                search_phrase.delete_last(event_service);
                KeyAction::Erase { column: self.character_index }
            },
            Key::Ctrl(c) => {
                if c == 'c' {
                    self.search_complete = true;
                    KeyAction::Cancel
                } else if c == 'j' {
                    KeyAction::Repaint(self.results_view.highlight_next())
                } else if c == 'k' {
                    KeyAction::Repaint(self.results_view.highlight_previous())
                } else if c == 'y' {
                    self.search_complete = true;
                    if self.results_view.has_highlighted_result() {
                        KeyAction::Copy(self.results_view.get_highlighted())
                    } else {
                        KeyAction::Confirm
                    }
                } else {
                    KeyAction::Ignore
                }
            },
            Key::Down => KeyAction::Repaint(self.results_view.highlight_next()),
            Key::Up => KeyAction::Repaint(self.results_view.highlight_previous()),
            Key::Enter => {
                self.search_complete = true;
                KeyAction::Confirm
            },
            Key::Other => KeyAction::Ignore,
        }
    }

    /// One turn of the loop that refreshes the screen, taken when the loop
    /// wakes. Once the session is over the loop stops, whatever waits. Else
    /// the newest result list that waits comes on screen, and the lists
    /// before it are dropped unseen; where none waits, the loop waits on.
    pub fn listen_for_files(
        &mut self,
        event_service: &mut EventService,
        width: usize,
        height: usize,
    ) -> (next: Refresh)
        ensures
            final(event_service)@.search_phrases == old(event_service)@.search_phrases,
            final(self)@.search_complete == old(self)@.search_complete,
            final(self)@.character_index == old(self)@.character_index,
            old(self)@.search_complete ==> {
                &&& next is Stop
                &&& final(self)@ == old(self)@
                &&& final(event_service)@ == old(event_service)@
            },
            !old(self)@.search_complete && old(event_service)@.file_finder_events.len() == 0 ==> {
                &&& next is Idle
                &&& final(self)@ == old(self)@
                &&& final(event_service)@ == old(event_service)@
            },
            !old(self)@.search_complete && old(event_service)@.file_finder_events.len() > 0 ==> {
                &&& next matches Refresh::Draw(frame)
                &&& frame == frame_of(
                    old(self)@.results_view.results.len(),
                    old(event_service)@.file_finder_events.last().len(),
                    width as nat,
                    height as nat,
                )
                &&& final(self)@.results_view.results == old(
                    event_service,
                )@.file_finder_events.last()
                &&& final(self)@.results_view.highlighted_result_row == 0
                &&& final(event_service)@.file_finder_events == Seq::<Seq<Seq<char>>>::empty()
            },
    {
        if self.search_complete {
            return Refresh::Stop;
        }
        match event_service.fetch_last_file_finder_event() {
            Some(results) => Refresh::Draw(self.show_results(results, width, height)),
            None => {
                proof {
                    assert(event_service@.file_finder_events =~= old(
                        event_service,
                    )@.file_finder_events);
                }
                Refresh::Idle
            },
        }
    }

    /// Brings `results` on screen in place of what was there, without a
    /// highlight, and says what a screen of `width` by `height` has to draw.
    pub fn show_results(&mut self, results: Vec<String>, width: usize, height: usize) -> (frame:
        Frame)
        ensures
            final(self)@.search_complete == old(self)@.search_complete,
            final(self)@.character_index == old(self)@.character_index,
            final(self)@.results_view.results == results.deep_view(),
            final(self)@.results_view.highlighted_result_row == 0,
            frame == frame_of(
                old(self)@.results_view.results.len(),
                results@.len() as nat,
                width as nat,
                height as nat,
            ),
    {
        self.results_view.update(results, width, height)
    }

    /// Whether a result is highlighted.
    pub fn has_highlighted_result(&self) -> (highlighted: bool)
        ensures
            highlighted == (self@.results_view.highlighted_result_row > 0),
    {
        self.results_view.has_highlighted_result()
    }

    /// The highlighted result.
    pub fn get_highlighted_result(&self) -> (result: String)
        requires
            self@.results_view.highlighted_result_row > 0,
        ensures
            result@ == self@.results_view.highlighted(),
    {
        self.results_view.get_highlighted()
    }

    /// What the session has found: the highlighted result, or the empty
    /// string where none is highlighted.
    pub fn get_found_file(&self) -> (found: String)
        ensures
            found@ == if self@.results_view.highlighted_result_row > 0 {
                self@.results_view.highlighted()
            } else {
                Seq::<char>::empty()
            },
    {
        if self.has_highlighted_result() {
            self.get_highlighted_result()
        } else {
            String::new()
        }
    }

    /// The result that row `row` of the screen shows.
    pub fn row(&self, row: usize) -> (result: Option<String>)
        ensures
            result.is_some() == (0 < row <= self@.results_view.results.len()),
            result matches Some(text) ==> text@ == self@.results_view.results[row - 1],
    {
        self.results_view.row(row)
    }
}

/// Whether `key` moves the highlight down.
pub open spec fn is_move_down(key: Key) -> bool {
    key == Key::Down || key == Key::Ctrl('j')
}

/// Whether `key` moves the highlight up.
pub open spec fn is_move_up(key: Key) -> bool {
    key == Key::Up || key == Key::Ctrl('k')
}

/// Whether nothing is bound to `key`.
pub open spec fn is_unbound(key: Key) -> bool {
    match key {
        Key::Other => true,
        Key::Ctrl(c) => c != 'c' && c != 'j' && c != 'k' && c != 'y',
        _ => false,
    }
}

} // verus!
