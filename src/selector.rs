//! The state of the interactive list: a cursor over the matches that wraps at
//! both ends, and the decision each key press leads to.

use vstd::prelude::*;

verus! {

/// A key as the terminal reports it.
#[derive(Clone, Copy, Debug, PartialEq, Eq)]
pub enum KeyInput {
    Char(char),
    Up,
    Down,
    Enter,
    Esc,
    Other,
}

/// What a key asks of the list.
#[derive(Clone, Copy, Debug, PartialEq, Eq)]
pub enum Command {
    MoveUp,
    MoveDown,
    Confirm,
    Quit,
    Ignore,
}

/// Where the session stands after a key.
#[derive(Clone, Copy, Debug, PartialEq, Eq)]
pub enum Outcome {
    Browsing,
    Confirmed(usize),
    Cancelled,
}

/// The command of a key: only presses count; `q` and Esc quit, Down and `j`
/// move down, Up and `k` move up, Enter confirms.
pub open spec fn command_spec(key: KeyInput, pressed: bool) -> Command {
    if !pressed {
        Command::Ignore
    } else {
        match key {
            KeyInput::Char(c) => if c == 'q' {
                Command::Quit
            } else if c == 'j' {
                Command::MoveDown
            } else if c == 'k' {
                Command::MoveUp
            } else {
                Command::Ignore
            },
            KeyInput::Esc => Command::Quit,
            KeyInput::Down => Command::MoveDown,
            KeyInput::Up => Command::MoveUp,
            KeyInput::Enter => Command::Confirm,
            KeyInput::Other => Command::Ignore,
        }
    }
}

/// The command that a key event gives; `pressed` is false for a release or
/// a repeat.
pub fn command_of(key: KeyInput, pressed: bool) -> (r: Command)
    ensures
        r == command_spec(key, pressed),
{
    if !pressed {
        return Command::Ignore;
    }
    match key {
        KeyInput::Char(c) => if c == 'q' {
            Command::Quit
        } else if c == 'j' {
            Command::MoveDown
        } else if c == 'k' {
            Command::MoveUp
        } else {
            Command::Ignore
        },
        KeyInput::Esc => Command::Quit,
        KeyInput::Down => Command::MoveDown,
        KeyInput::Up => Command::MoveUp,
        KeyInput::Enter => Command::Confirm,
        KeyInput::Other => Command::Ignore,
    }
}

/// The cursor after moving down in a list of `len` entries.
pub open spec fn next_down(cursor: nat, len: nat) -> nat {
    if cursor + 1 >= len {
        0
    } else {
        cursor + 1
    }
}

/// The cursor after moving up in a list of `len` entries.
pub open spec fn next_up(cursor: nat, len: nat) -> nat {
    if cursor == 0 {
        (len - 1) as nat
    } else {
        (cursor - 1) as nat
    }
}

/// A cursor over a non-empty list of matches.
pub struct Selector {
    cursor: usize,
    len: usize,
}

impl Selector {
    /// The cursor stands on an entry of a non-empty list.
    pub open spec fn wf(&self) -> bool {
        0 < self.len_spec() && self.cursor_spec() < self.len_spec()
    }

    /// The entry under the cursor, from 0.
    pub closed spec fn cursor_spec(&self) -> nat {
        self.cursor as nat
    }

    /// The number of entries.
    pub closed spec fn len_spec(&self) -> nat {
        self.len as nat
    }

    /// A session over `len` entries, on the first.
    pub fn new(len: usize) -> (r: Selector)
        requires
            len > 0,
        ensures
            r.wf(),
            r.cursor_spec() == 0,
            r.len_spec() == len,
    {
        Selector { cursor: 0, len }
    }

    /// The entry under the cursor.
    pub fn cursor(&self) -> (r: usize)
        ensures
            r == self.cursor_spec(),
    {
        self.cursor
    }

    /// The number of entries.
    pub fn len(&self) -> (r: usize)
        ensures
            r == self.len_spec(),
    {
        self.len
    }

    /// Moves to the next entry, from the last to the first.
    pub fn move_down(&mut self)
        requires
            old(self).wf(),
        ensures
            final(self).wf(),
            final(self).len_spec() == old(self).len_spec(),
            final(self).cursor_spec() == next_down(old(self).cursor_spec(), old(self).len_spec()),
    {
        if self.cursor >= self.len - 1 {
            self.cursor = 0;
        } else {
            self.cursor = self.cursor + 1;
        }
    }

    /// Moves to the previous entry, from the first to the last.
    pub fn move_up(&mut self)
        requires
            old(self).wf(),
        ensures
            final(self).wf(),
            final(self).len_spec() == old(self).len_spec(),
            final(self).cursor_spec() == next_up(old(self).cursor_spec(), old(self).len_spec()),
    {
        if self.cursor == 0 {
            self.cursor = self.len - 1;
        } else {
            self.cursor = self.cursor - 1;
        }
    }

    /// Applies a command: moves stay in the session, Confirm ends it on the
    /// entry under the cursor, Quit ends it with no choice, anything else
    /// changes nothing.
    pub fn handle(&mut self, command: Command) -> (r: Outcome)
        requires
            old(self).wf(),
        ensures
            final(self).wf(),
            final(self).len_spec() == old(self).len_spec(),
            final(self).cursor_spec() == match command {
                Command::MoveDown => next_down(old(self).cursor_spec(), old(self).len_spec()),
                Command::MoveUp => next_up(old(self).cursor_spec(), old(self).len_spec()),
                _ => old(self).cursor_spec(),
            },
            r == match command {
                Command::Confirm => Outcome::Confirmed(old(self).cursor_spec() as usize),
                Command::Quit => Outcome::Cancelled,
                _ => Outcome::Browsing,
            },
    {
        match command {
            Command::MoveDown => {
                self.move_down();
                Outcome::Browsing
            },
            Command::MoveUp => {
                self.move_up();
                Outcome::Browsing
            },
            Command::Confirm => Outcome::Confirmed(self.cursor),
            Command::Quit => Outcome::Cancelled,
            Command::Ignore => Outcome::Browsing,
        }
    }
}

/// The cursor wraps at both ends: up from the first entry lands on the last,
/// down from the last lands on the first; and a move down undone by a move
/// up, or the reverse, comes back to where it started.
pub proof fn lemma_cursor_wraps(cursor: nat, len: nat)
    requires
        cursor < len,
    ensures
        next_up(0, len) == len - 1,
        next_down((len - 1) as nat, len) == 0,
        next_down(cursor, len) < len,
        next_up(cursor, len) < len,
        next_up(next_down(cursor, len), len) == cursor,
        next_down(next_up(cursor, len), len) == cursor,
{
}

} // verus!
