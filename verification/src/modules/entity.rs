use vstd::prelude::*;

verus! {

/// The mathematical value of a [`State`]: where the pointer stands and what
/// the cells of the tape hold.
pub struct StateView {
    pub pos: int,
    pub tape: Seq<u8>,
}

impl StateView {
    /// The state every run starts from: pointer on the first cell of a tape
    /// of `tape_length` cells that all hold zero.
    pub open spec fn initial(tape_length: nat) -> StateView {
        StateView { pos: 0, tape: Seq::new(tape_length, |k: int| 0u8) }
    }

    /// The pointer stands on a cell of the tape.
    pub open spec fn on_tape(self) -> bool {
        0 <= self.pos < self.tape.len()
    }

    /// The cell under the pointer.
    pub open spec fn cell(self) -> u8
        recommends
            self.on_tape(),
    {
        self.tape[self.pos]
    }
}

/// The tape machine at one point of a run.
#[derive(Clone, Debug, PartialEq)]
pub struct State {
    pub pos: usize,
    pub tape: Vec<u8>,
}

impl View for State {
    type V = StateView;

    open spec fn view(&self) -> StateView {
        StateView { pos: self.pos as int, tape: self.tape@ }
    }
}

impl State {
    /// The initial state for a tape of `tape_length` cells.
    pub fn blank(tape_length: usize) -> (s: State)
        ensures
            s@ == StateView::initial(tape_length as nat),
    {
        let tape: Vec<u8> = vec![0u8; tape_length];
        let s = State { pos: 0, tape };
        assert(s@.tape =~= StateView::initial(tape_length as nat).tape);
        s
    }
}

/// What a command does to the cursor of the program once it has run.
#[derive(Clone, Copy, Debug, PartialEq, Eq, Structural)]
pub enum NextAction {
    /// Go on with the next command.
    GoForward,
    /// Go back to the loop start that matches this loop end.
    JumpBackward,
    /// Go on behind the loop end that matches this loop start.
    JumpForward,
}

/// Why the machine cannot run the command under the cursor.
#[derive(Clone, Copy, Debug, PartialEq, Eq, Structural)]
pub enum Fault {
    /// The command would move the pointer to the left of the first cell or
    /// beyond what an index can hold, or it touches a cell while the pointer
    /// stands outside the tape.
    PointerOutOfRange,
    /// The command is a loop boundary that has to jump and has no partner.
    UnmatchedLoop,
}

/// How a run came to its end.
#[derive(Clone, Copy, Debug, PartialEq, Eq, Structural)]
pub enum Outcome {
    /// The cursor has left the program.
    Finished,
    /// The command under the cursor cannot run.
    Faulted(Fault),
    /// The run was cut off after the number of steps it was allowed; the
    /// command under the cursor could have run.
    OutOfSteps,
}

/// What a run leaves behind.
#[derive(Debug, PartialEq)]
pub struct Execution {
    /// The initial state and, behind it, the state after each step.
    pub states: Vec<State>,
    /// The bytes emitted, in the order in which they were emitted.
    pub output: Vec<u8>,
    /// How the run came to its end.
    pub outcome: Outcome,
}

/// The mathematical values of a list of states.
pub open spec fn views(states: Seq<State>) -> Seq<StateView> {
    states.map_values(|s: State| s@)
}

} // verus!
