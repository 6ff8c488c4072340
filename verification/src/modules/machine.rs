use super::command::Command;
use super::entity::{Fault, NextAction, Outcome, StateView};
use super::nesting::{has_loop_end, has_loop_start, loop_end, loop_start};
use vstd::prelude::*;

verus! {

/// The byte that the next `GetChar` stores when `consumed` bytes of `input`
/// have been read: the next byte of the input, or zero once it is used up.
pub open spec fn input_byte(input: Seq<u8>, consumed: int) -> u8 {
    if 0 <= consumed < input.len() {
        input[consumed]
    } else {
        0
    }
}

/// Why the command at index `i` cannot run in state `s`, if it cannot.
pub open spec fn fault_at(cmds: Seq<Command>, i: int, s: StateView) -> Option<Fault> {
    if !cmds[i].applicable(s) {
        Some(Fault::PointerOutOfRange)
    } else {
        match cmds[i].action(s) {
            NextAction::JumpBackward if !has_loop_start(cmds, i) => Some(Fault::UnmatchedLoop),
            NextAction::JumpForward if !has_loop_end(cmds, i) => Some(Fault::UnmatchedLoop),
            _ => None,
        }
    }
}

/// Where the cursor stands after the command at index `i` has run in state
/// `s`: on the next command; or, for a loop end that jumps, on the start of
/// its loop, which is then looked at again; or, for a loop start that jumps,
/// behind the end of its loop.
pub open spec fn next_cursor(cmds: Seq<Command>, i: int, s: StateView) -> int {
    match cmds[i].action(s) {
        NextAction::GoForward => i + 1,
        NextAction::JumpBackward => loop_start(cmds, i),
        NextAction::JumpForward => loop_end(cmds, i) + 1,
    }
}

/// The engine at one point of a run.
pub struct Machine {
    /// The index of the command that runs next.
    pub cursor: int,
    /// The initial state and, behind it, the state after each step so far.
    pub history: Seq<StateView>,
    /// How many steps have been made.
    pub steps: nat,
    /// How many bytes of the input have been read.
    pub consumed: int,
    /// The bytes emitted so far.
    pub output: Seq<u8>,
}

impl Machine {
    /// The engine before the first step, on a tape of `tape_length` cells.
    pub open spec fn start(tape_length: nat) -> Machine {
        Machine {
            cursor: 0,
            history: seq![StateView::initial(tape_length)],
            steps: 0,
            consumed: 0,
            output: Seq::empty(),
        }
    }

    /// The latest state.
    pub open spec fn state(self) -> StateView {
        self.history.last()
    }

    /// The cursor stands on a command, and that command can run.
    pub open spec fn can_step(self, cmds: Seq<Command>) -> bool {
        &&& 0 <= self.cursor < cmds.len()
        &&& fault_at(cmds, self.cursor, self.state()) is None
    }

    /// The engine after the command under the cursor has run.
    pub open spec fn step(self, cmds: Seq<Command>, input: Seq<u8>) -> Machine
        recommends
            self.can_step(cmds),
    {
        let command = cmds[self.cursor];
        let state = self.state();
        Machine {
            cursor: next_cursor(cmds, self.cursor, state),
            history: self.history.push(command.apply(state, input_byte(input, self.consumed))),
            steps: self.steps + 1,
            consumed: if command == Command::GetChar && self.consumed < input.len() {
                self.consumed + 1
            } else {
                self.consumed
            },
            output: match command.emitted(state) {
                Some(byte) => self.output.push(byte),
                None => self.output,
            },
        }
    }

    /// The engine after it has made step after step until it cannot step or
    /// has made `fuel` steps.
    pub open spec fn run(self, cmds: Seq<Command>, input: Seq<u8>, fuel: nat) -> Machine
        decreases fuel,
    {
        if fuel == 0 || !self.can_step(cmds) {
            self
        } else {
            self.step(cmds, input).run(cmds, input, (fuel - 1) as nat)
        }
    }

    /// Why the engine stands where it stands, taken as the end of a run.
    pub open spec fn outcome(self, cmds: Seq<Command>) -> Outcome {
        if !(0 <= self.cursor < cmds.len()) {
            Outcome::Finished
        } else {
            match fault_at(cmds, self.cursor, self.state()) {
                Some(fault) => Outcome::Faulted(fault),
                None => Outcome::OutOfSteps,
            }
        }
    }

    /// What holds of the engine at every point of a run of `cmds` on a tape
    /// of `tape_length` cells with the input `input`: the cursor stands in the
    /// program or just behind it; the history holds the initial state and one
    /// state for each step; every tape in it has `tape_length` cells, and no
    /// pointer in it stands left of the first cell; no more than the input
    /// has been read.
    pub open spec fn well_formed(self, cmds: Seq<Command>, tape_length: nat, input: Seq<u8>) -> bool {
        &&& 0 <= self.cursor <= cmds.len()
        &&& self.history.len() == 1 + self.steps
        &&& forall|k: int|
            0 <= k < self.history.len() ==> (#[trigger] self.history[k]).tape.len() == tape_length
        &&& forall|k: int| 0 <= k < self.history.len() ==> (#[trigger] self.history[k]).pos >= 0
        &&& 0 <= self.consumed <= input.len()
    }
}

/// The engine at the end of the run of `cmds` on a tape of `tape_length`
/// cells with the input `input`, cut off after `max_steps` steps.
pub open spec fn trace(cmds: Seq<Command>, tape_length: nat, input: Seq<u8>, max_steps: nat) -> Machine {
    Machine::start(tape_length).run(cmds, input, max_steps)
}

/// A run starts from a well-formed engine.
pub proof fn lemma_start_well_formed(cmds: Seq<Command>, tape_length: nat, input: Seq<u8>)
    ensures
        Machine::start(tape_length).well_formed(cmds, tape_length, input),
{
}

/// A step keeps the engine well-formed, and keeps every state recorded
/// before it.
pub proof fn lemma_step_well_formed(m: Machine, cmds: Seq<Command>, tape_length: nat, input: Seq<u8>)
    requires
        m.well_formed(cmds, tape_length, input),
        m.can_step(cmds),
    ensures
        m.step(cmds, input).well_formed(cmds, tape_length, input),
        m.step(cmds, input).history.drop_last() == m.history,
{
    let next = m.step(cmds, input);
    assert(next.history.drop_last() =~= m.history);
    assert(0 <= next.cursor <= cmds.len());
    assert forall|k: int| 0 <= k < next.history.len() implies (#[trigger] next.history[k]).tape.len()
        == tape_length && next.history[k].pos >= 0 by {
        if k < m.history.len() {
            assert(next.history[k] == m.history[k]);
        }
    }
}

/// No step leaves the cursor where it was: going forward it moves right, a
/// jump back lands left of the loop end, and a jump forward behind the loop
/// end.
pub proof fn lemma_step_moves_cursor(m: Machine, cmds: Seq<Command>, input: Seq<u8>)
    requires
        m.can_step(cmds),
    ensures
        m.step(cmds, input).cursor != m.cursor,
        m.step(cmds, input).steps == m.steps + 1,
        m.step(cmds, input).history.len() == m.history.len() + 1,
{
}

/// The history length invariant: however often loops repeat, a run returns
/// the initial state and one state for each step that it made, it makes no
/// more steps than it was allowed, and all it returns is well-formed.
pub proof fn lemma_run_well_formed(
    m: Machine,
    cmds: Seq<Command>,
    tape_length: nat,
    input: Seq<u8>,
    fuel: nat,
)
    requires
        m.well_formed(cmds, tape_length, input),
    ensures
        m.run(cmds, input, fuel).well_formed(cmds, tape_length, input),
        m.run(cmds, input, fuel).history.len() == 1 + m.run(cmds, input, fuel).steps,
        m.steps <= m.run(cmds, input, fuel).steps <= m.steps + fuel,
    decreases fuel,
{
    if fuel > 0 && m.can_step(cmds) {
        lemma_step_well_formed(m, cmds, tape_length, input);
        lemma_run_well_formed(m.step(cmds, input), cmds, tape_length, input, (fuel - 1) as nat);
    }
}

/// A run stops early only where the engine cannot step: with fewer steps
/// made than allowed, the cursor has left the program or stands on a command
/// that cannot run.
pub proof fn lemma_run_stops_when_stuck(m: Machine, cmds: Seq<Command>, input: Seq<u8>, fuel: nat)
    ensures
        m.run(cmds, input, fuel).steps < m.steps + fuel ==> !m.run(cmds, input, fuel).can_step(cmds),
    decreases fuel,
{
    if fuel > 0 && m.can_step(cmds) {
        lemma_run_stops_when_stuck(m.step(cmds, input), cmds, input, (fuel - 1) as nat);
    }
}

/// A run in two parts is the run in one: going on for `more` steps from
/// where `fuel` steps led is running for `fuel + more` steps.
pub proof fn lemma_run_split(m: Machine, cmds: Seq<Command>, input: Seq<u8>, fuel: nat, more: nat)
    ensures
        m.run(cmds, input, fuel).run(cmds, input, more) == m.run(cmds, input, fuel + more),
    decreases fuel,
{
    if fuel > 0 && m.can_step(cmds) {
        lemma_run_split(m.step(cmds, input), cmds, input, (fuel - 1) as nat, more);
    } else if fuel == 0 {
    } else {
        assert(m.run(cmds, input, more) == m);
        assert(m.run(cmds, input, fuel + more) == m);
    }
}

/// What a run has recorded stays as it is: going on changes no state of the
/// history and no byte of the output, it only adds behind them. So a run
/// that is allowed more steps returns what the shorter run returns, and
/// goes on from there.
pub proof fn lemma_run_extends(m: Machine, cmds: Seq<Command>, input: Seq<u8>, fuel: nat)
    ensures
        m.history.is_prefix_of(m.run(cmds, input, fuel).history),
        m.output.is_prefix_of(m.run(cmds, input, fuel).output),
    decreases fuel,
{
    if fuel > 0 && m.can_step(cmds) {
        let next = m.step(cmds, input);
        let end = next.run(cmds, input, (fuel - 1) as nat);
        lemma_run_extends(next, cmds, input, (fuel - 1) as nat);
        assert(m.history =~= next.history.subrange(0, m.history.len() as int));
        assert(m.history =~= end.history.subrange(0, m.history.len() as int));
        assert(m.output.is_prefix_of(next.output));
        assert(m.output =~= end.output.subrange(0, m.output.len() as int));
    }
}

/// The empty program makes no step: its run is the engine as it started,
/// and its history the initial state alone.
pub proof fn lemma_run_empty_program(tape_length: nat, input: Seq<u8>, max_steps: nat)
    ensures
        trace(Seq::empty(), tape_length, input, max_steps) == Machine::start(tape_length),
        trace(Seq::empty(), tape_length, input, max_steps).history
            == seq![StateView::initial(tape_length)],
        trace(Seq::empty(), tape_length, input, max_steps).outcome(Seq::empty())
            == Outcome::Finished,
{
}

/// Cells wrap: one added to a cell that holds 255 gives 0, and one taken
/// from a cell that holds 0 gives 255; every other cell goes up or down by
/// one. Adding one and taking one undo each other.
pub proof fn lemma_cell_wraps(s: StateView, input: u8)
    requires
        s.on_tape(),
    ensures
        Command::IncrVal.apply(s, input).cell() == (if s.cell() == 255 {
            0
        } else {
            s.cell() + 1
        }),
        Command::DecrVal.apply(s, input).cell() == (if s.cell() == 0 {
            255
        } else {
            s.cell() - 1
        }),
        Command::DecrVal.apply(Command::IncrVal.apply(s, input), input) == s,
        Command::IncrVal.apply(Command::DecrVal.apply(s, input), input) == s,
{
    assert(Command::DecrVal.apply(Command::IncrVal.apply(s, input), input).tape =~= s.tape);
    assert(Command::IncrVal.apply(Command::DecrVal.apply(s, input), input).tape =~= s.tape);
}

} // verus!
