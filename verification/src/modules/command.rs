use super::entity::{NextAction, State, StateView};
use vstd::prelude::*;

verus! {

/// One command of the language.
#[derive(Clone, Copy, Debug, PartialEq, Eq, Structural)]
pub enum Command {
    /// `>`: move the pointer one cell to the right.
    IncrPtr,
    /// `<`: move the pointer one cell to the left.
    DecrPtr,
    /// `+`: add one to the cell under the pointer.
    IncrVal,
    /// `-`: take one from the cell under the pointer.
    DecrVal,
    /// `.`: emit the cell under the pointer.
    Output,
    /// `,`: store one byte of input in the cell under the pointer.
    GetChar,
    /// `[`: start of a loop.
    IterStart,
    /// `]`: end of a loop.
    IterEnd,
}

impl Command {
    /// The command that a character of the source text stands for, if any.
    pub open spec fn of_char(c: char) -> Option<Command> {
        if c == '>' {
            Some(Command::IncrPtr)
        } else if c == '<' {
            Some(Command::DecrPtr)
        } else if c == '+' {
            Some(Command::IncrVal)
        } else if c == '-' {
            Some(Command::DecrVal)
        } else if c == '.' {
            Some(Command::Output)
        } else if c == ',' {
            Some(Command::GetChar)
        } else if c == '[' {
            Some(Command::IterStart)
        } else if c == ']' {
            Some(Command::IterEnd)
        } else {
            None
        }
    }

    /// The command can run in state `s`: a move keeps the pointer at or right
    /// of the first cell and within what an index can hold, and every other
    /// command finds the pointer on a cell of the tape.
    pub open spec fn applicable(self, s: StateView) -> bool {
        match self {
            Command::IncrPtr => s.pos < usize::MAX,
            Command::DecrPtr => s.pos > 0,
            _ => s.on_tape(),
        }
    }

    /// The state that the command leaves behind when it runs in state `s` and,
    /// if it reads, is given the byte `input`. A move shifts the pointer by
    /// one; adding and taking one count modulo 256; emitting and the loop
    /// boundaries change nothing.
    pub open spec fn apply(self, s: StateView, input: u8) -> StateView {
        match self {
            Command::IncrPtr => StateView { pos: s.pos + 1, tape: s.tape },
            Command::DecrPtr => StateView { pos: s.pos - 1, tape: s.tape },
            Command::IncrVal => StateView {
                pos: s.pos,
                tape: s.tape.update(s.pos, ((s.cell() + 1) % 256) as u8),
            },
            Command::DecrVal => StateView {
                pos: s.pos,
                tape: s.tape.update(s.pos, ((s.cell() - 1) % 256) as u8),
            },
            Command::GetChar => StateView { pos: s.pos, tape: s.tape.update(s.pos, input) },
            Command::Output | Command::IterStart | Command::IterEnd => s,
        }
    }

    /// Where the cursor goes after the command has run in state `s`: a loop
    /// start jumps forward on a zero cell, a loop end jumps backward on a
    /// non-zero cell, everything else goes forward.
    pub open spec fn action(self, s: StateView) -> NextAction {
        match self {
            Command::IterStart if s.cell() == 0 => NextAction::JumpForward,
            Command::IterEnd if s.cell() != 0 => NextAction::JumpBackward,
            _ => NextAction::GoForward,
        }
    }

    /// The byte that the command emits when it runs in state `s`, if any.
    pub open spec fn emitted(self, s: StateView) -> Option<u8> {
        if self == Command::Output {
            Some(s.cell())
        } else {
            None
        }
    }

    /// Reads one character of source text: the command it stands for, or
    /// `None` for a character that is a comment.
    pub fn char_to_command(c: char) -> (r: Option<Command>)
        ensures
            r == Self::of_char(c),
    {
        match c {
            '>' => Some(Command::IncrPtr),
            '<' => Some(Command::DecrPtr),
            '+' => Some(Command::IncrVal),
            '-' => Some(Command::DecrVal),
            '.' => Some(Command::Output),
            ',' => Some(Command::GetChar),
            '[' => Some(Command::IterStart),
            ']' => Some(Command::IterEnd),
            _ => None,
        }
    }

    /// Says whether the command starts a loop.
    pub fn is_iter_start(&self) -> (b: bool)
        ensures
            b == (*self == Command::IterStart),
    {
        *self == Command::IterStart
    }

    /// Says whether the command ends a loop.
    pub fn is_iter_end(&self) -> (b: bool)
        ensures
            b == (*self == Command::IterEnd),
    {
        *self == Command::IterEnd
    }

    /// Says whether the command can run in `state`.
    pub fn can_call(&self, state: &State) -> (b: bool)
        ensures
            b == self.applicable(state@),
    {
        match self {
            Command::IncrPtr => state.pos < usize::MAX,
            Command::DecrPtr => state.pos > 0,
            _ => state.pos < state.tape.len(),
        }
    }

    /// Runs the command in `state` and returns the state it leaves behind and
    /// what happens to the cursor. `input` is the byte that `GetChar` stores;
    /// no other command looks at it. The byte that `Output` emits is the cell
    /// under the pointer of `state`.
    pub fn call(&self, state: &State, input: u8) -> (r: (State, NextAction))
        requires
            self.applicable(state@),
        ensures
            r.0@ == self.apply(state@, input),
            r.1 == self.action(state@),
    {
        let pos: usize = state.pos;
        let mut tape: Vec<u8> = state.tape.clone();
        assert(tape@ =~= state.tape@);
        match self {
            Command::IncrPtr => (State { pos: pos + 1, tape }, NextAction::GoForward),
            Command::DecrPtr => (State { pos: pos - 1, tape }, NextAction::GoForward),
            Command::IncrVal => {
                let cell: u8 = tape[pos];
                tape.set(pos, cell.wrapping_add(1));
                (State { pos, tape }, NextAction::GoForward)
            },
            Command::DecrVal => {
                let cell: u8 = tape[pos];
                tape.set(pos, cell.wrapping_sub(1));
                (State { pos, tape }, NextAction::GoForward)
            },
            Command::Output => (State { pos, tape }, NextAction::GoForward),
            Command::GetChar => {
                tape.set(pos, input);
                (State { pos, tape }, NextAction::GoForward)
            },
            Command::IterStart => {
                let next_action = if tape[pos] == 0 {
                    NextAction::JumpForward
                } else {
                    NextAction::GoForward
                };
                (State { pos, tape }, next_action)
            },
            Command::IterEnd => {
                let next_action = if tape[pos] == 0 {
                    NextAction::GoForward
                } else {
                    NextAction::JumpBackward
                };
                (State { pos, tape }, next_action)
            },
        }
    }
}

} // verus!
