use super::command::Command;
use super::decoder::{decode, lemma_decode_push};
use super::entity::{views, Execution, Fault, NextAction, Outcome, State};
use super::machine::{fault_at, lemma_run_well_formed, next_cursor, trace, Machine};
use super::nesting::{
    delta, depth, has_loop_end, has_loop_start, is_loop, lemma_depth_first, lemma_depth_split,
    lemma_loop_end_unique, lemma_loop_start_unique, loop_end, loop_start,
};
use vstd::prelude::*;

verus! {

/// The engine: decodes a program and runs it, step by step.
pub struct Interpreter {}

impl Interpreter {
    /// Decodes the program `s` and runs it on a tape of `tape_length` cells,
    /// with no input to read: every `GetChar` stores zero. Returns the
    /// history of the run: the initial state and the state after each step.
    /// The run ends when the cursor leaves the program, or in front of the
    /// first command that cannot run; a history cannot hold more than
    /// `usize::MAX` states, so the run is cut off at that length. What the
    /// program emits is not kept: [`Interpreter::run`] returns it, and says
    /// how the run ended.
    pub fn interpret(s: &str, tape_length: usize) -> (states: Vec<State>)
        ensures
            views(states@) == trace(
                decode(s@),
                tape_length as nat,
                Seq::<u8>::empty(),
                usize::MAX as nat,
            ).history,
    {
        let commands = Self::convert_str_to_command(s);
        let input: Vec<u8> = Vec::new();
        let execution = Self::run(&commands, tape_length, &input, usize::MAX);
        execution.states
    }

    /// Runs `commands` on a tape of `tape_length` cells for at most
    /// `max_steps` steps. `GetChar` reads `input` byte by byte, and zero once
    /// it is used up. Returns the history, which holds the initial state and
    /// one state for each step made, the bytes emitted, and how the run
    /// ended.
    pub fn run(
        commands: &Vec<Command>,
        tape_length: usize,
        input: &Vec<u8>,
        max_steps: usize,
    ) -> (e: Execution)
        ensures
            views(e.states@) == trace(commands@, tape_length as nat, input@, max_steps as nat).history,
            e.output@ == trace(commands@, tape_length as nat, input@, max_steps as nat).output,
            e.outcome == trace(commands@, tape_length as nat, input@, max_steps as nat).outcome(
                commands@,
            ),
            e.states@.len() == 1 + trace(
                commands@,
                tape_length as nat,
                input@,
                max_steps as nat,
            ).steps,
    {
        let ghost cmds = commands@;
        let ghost end = trace(cmds, tape_length as nat, input@, max_steps as nat);
        let ghost mut m = Machine::start(tape_length as nat);
        let mut states: Vec<State> = Vec::new();
        states.push(State::blank(tape_length));
        let mut output: Vec<u8> = Vec::new();
        let mut i: usize = 0;
        let mut consumed: usize = 0;
        let mut steps: usize = 0;
        let mut outcome: Option<Outcome> = None;
        assert(views(states@) =~= m.history);
        while outcome.is_none()
            invariant
                cmds == commands@,
                steps <= max_steps,
                end == m.run(cmds, input@, (max_steps - steps) as nat),
                m.cursor == i,
                views(states@) == m.history,
                states@.len() >= 1,
                m.output == output@,
                m.consumed == consumed,
                consumed <= input.len(),
                outcome matches Some(o) ==> end == m && o == m.outcome(cmds),
            decreases max_steps - steps + (if outcome is None { 1int } else { 0int }),
        {
            if i >= commands.len() {
                outcome = Some(Outcome::Finished);
            } else {
                let command = commands[i];
                let latest = &states[states.len() - 1];
                assert(latest@ == m.state());
                let byte: u8 = if consumed < input.len() {
                    input[consumed]
                } else {
                    0
                };
                match Self::step(commands, i, latest, byte) {
                    Err(fault) => {
                        outcome = Some(Outcome::Faulted(fault));
                    },
                    Ok((new_state, next)) => {
                        if steps >= max_steps {
                            outcome = Some(Outcome::OutOfSteps);
                        } else {
                            if command == Command::Output {
                                output.push(latest.tape[latest.pos]);
                            }
                            if command == Command::GetChar && consumed < input.len() {
                                consumed += 1;
                            }
                            proof {
                                m = m.step(cmds, input@);
                                assert(end == m.run(cmds, input@, (max_steps - steps - 1) as nat));
                                assert(views(states@.push(new_state)) =~= views(states@).push(
                                    new_state@,
                                ));
                            }
                            i = next;
                            states.push(new_state);
                            steps += 1;
                        }
                    },
                }
            }
        }
        proof {
            lemma_run_well_formed(
                Machine::start(tape_length as nat),
                cmds,
                tape_length as nat,
                input@,
                max_steps as nat,
            );
        }
        Execution { states, output, outcome: outcome.unwrap() }
    }

    /// Runs the command at index `i` in `state`: returns the state it leaves
    /// behind and the index of the command that runs next, or the reason why
    /// it cannot run. `input` is the byte that `GetChar` stores.
    pub fn step(
        commands: &Vec<Command>,
        i: usize,
        state: &State,
        input: u8,
    ) -> (r: Result<(State, usize), Fault>)
        requires
            i < commands.len(),
        ensures
            match r {
                Ok((new_state, next)) => {
                    &&& fault_at(commands@, i as int, state@) is None
                    &&& new_state@ == commands@[i as int].apply(state@, input)
                    &&& next == next_cursor(commands@, i as int, state@)
                    &&& next <= commands.len()
                },
                Err(fault) => fault_at(commands@, i as int, state@) == Some(fault),
            },
    {
        let command = &commands[i];
        if !command.can_call(state) {
            return Err(Fault::PointerOutOfRange);
        }
        let (new_state, next_action) = command.call(state, input);
        let next: usize = match next_action {
            NextAction::GoForward => i + 1,
            NextAction::JumpBackward => match Self::find_corresponding_iter_start(i, commands) {
                Some(j) => {
                    proof {
                        lemma_loop_start_unique(commands@, j as int, loop_start(commands@, i as int), i as int);
                    }
                    j
                },
                None => {
                    return Err(Fault::UnmatchedLoop);
                },
            },
            NextAction::JumpForward => match Self::find_corresponding_iter_end(i, commands) {
                Some(j) => {
                    proof {
                        lemma_loop_end_unique(commands@, i as int, j as int, loop_end(commands@, i as int));
                    }
                    j + 1
                },
                None => {
                    return Err(Fault::UnmatchedLoop);
                },
            },
        };
        Ok((new_state, next))
    }

    /// Decodes a source text: keeps the command of each command character, in
    /// the order of the text, and passes over every other character.
    pub fn convert_str_to_command(s: &str) -> (commands: Vec<Command>)
        ensures
            commands@ == decode(s@),
    {
        let mut commands: Vec<Command> = Vec::new();
        let ghost mut seen: Seq<char> = Seq::empty();
        proof {
            reveal(Seq::filter);
            assert(decode(seen) =~= commands@);
        }
        for c in it: s.chars()
            invariant
                it.seq() == s@,
                seen == s@.take(it.index() as int),
                commands@ == decode(seen),
        {
            proof {
                lemma_decode_push(seen, c);
                assert(seen.push(c) =~= s@.take(it.index() + 1));
                seen = seen.push(c);
            }
            match Command::char_to_command(c) {
                Some(command) => {
                    commands.push(command);
                },
                None => {},
            }
        }
        assert(seen =~= s@);
        commands
    }

    /// Looks for the loop start that belongs to the loop end at index `i`,
    /// scanning to the left and counting the loop boundaries passed until as
    /// many starts as ends have been seen. `None` where `i` is not the index
    /// of a loop end, or where that loop end has no partner.
    pub fn find_corresponding_iter_start(i: usize, commands: &Vec<Command>) -> (r: Option<usize>)
        ensures
            match r {
                Some(j) => is_loop(commands@, j as int, i as int),
                None => !has_loop_start(commands@, i as int),
            },
    {
        if i >= commands.len() || !commands[i].is_iter_end() {
            return None;
        }
        let ghost cmds = commands@;
        let mut j: usize = i;
        let mut num_iter_start: usize = 0;
        let mut num_iter_end: usize = 1;
        while num_iter_start != num_iter_end
            invariant
                cmds == commands@,
                j <= i < commands.len(),
                cmds[i as int] == Command::IterEnd,
                num_iter_start + num_iter_end <= i - j + 1,
                num_iter_end - num_iter_start == 1 - depth(cmds, j as int, i as int),
                num_iter_end >= num_iter_start,
                forall|k: int| j < k <= i ==> depth(cmds, k, i as int) <= 0,
            decreases j,
        {
            if j == 0 {
                assert forall|s: int| !is_loop(cmds, s, i as int) by {
                    if is_loop(cmds, s, i as int) {
                        lemma_depth_first(cmds, s, i as int);
                    }
                }
                return None;
            }
            j -= 1;
            proof {
                lemma_depth_first(cmds, j as int, i as int);
            }
            let tmp_command = &commands[j];
            if tmp_command.is_iter_start() {
                num_iter_start += 1;
            } else if tmp_command.is_iter_end() {
                num_iter_end += 1;
            }
        }
        proof {
            lemma_depth_first(cmds, j as int, i as int);
            let lo = j + 1;
            assert forall|k: int| lo <= k <= i implies depth(cmds, lo, k) >= 0 by {
                lemma_depth_split(cmds, lo, k, i as int);
            }
        }
        Some(j)
    }

    /// Looks for the loop end that belongs to the loop start at index `i`,
    /// scanning to the right and counting the loop boundaries passed until as
    /// many ends as starts have been seen. `None` where `i` is not the index
    /// of a loop start, or where that loop start has no partner.
    pub fn find_corresponding_iter_end(i: usize, commands: &Vec<Command>) -> (r: Option<usize>)
        ensures
            match r {
                Some(j) => is_loop(commands@, i as int, j as int),
                None => !has_loop_end(commands@, i as int),
            },
    {
        if i >= commands.len() || !commands[i].is_iter_start() {
            return None;
        }
        let ghost cmds = commands@;
        let ghost lo = i + 1;
        let mut j: usize = i;
        let mut num_iter_start: usize = 1;
        let mut num_iter_end: usize = 0;
        while num_iter_start != num_iter_end
            invariant
                cmds == commands@,
                lo == i + 1,
                i <= j < commands.len(),
                cmds[i as int] == Command::IterStart,
                num_iter_start + num_iter_end <= j - i + 1,
                num_iter_start - num_iter_end == 1 + depth(cmds, lo, j + 1),
                num_iter_start >= num_iter_end,
                forall|k: int| lo <= k <= j ==> depth(cmds, lo, k) >= 0,
            decreases commands.len() - j,
        {
            if j + 1 >= commands.len() {
                assert forall|e: int| !is_loop(cmds, i as int, e) by {
                    if is_loop(cmds, i as int, e) {
                        assert(depth(cmds, lo, e + 1) == depth(cmds, lo, e) + delta(cmds[e]));
                    }
                }
                return None;
            }
            j += 1;
            let tmp_command = &commands[j];
            if tmp_command.is_iter_start() {
                num_iter_start += 1;
            } else if tmp_command.is_iter_end() {
                num_iter_end += 1;
            }
        }
        proof {
            assert(depth(cmds, lo, lo) == 0);
            assert(depth(cmds, lo, j + 1) == depth(cmds, lo, j as int) + delta(cmds[j as int]));
        }
        Some(j)
    }
}

} // verus!
