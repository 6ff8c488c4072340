use bf_rust::{Command, Interpreter, NextAction, State};

#[test]
#[allow(non_snake_case)]
fn lib_call__must_increment_pos_for_IncrPtr() {
    let command = Command::IncrPtr;
    let state = State {
        pos: 0,
        tape: vec![0],
    };
    let actual = command.call(&state, 0);
    let expected = (
        State {
            pos: 1,
            tape: vec![0],
        },
        NextAction::GoForward,
    );
    assert_eq!(actual, expected);
}

#[test]
#[allow(non_snake_case)]
fn lib_call__must_decrement_pos_for_DecrPtr() {
    let command = Command::DecrPtr;
    let state = State {
        pos: 1,
        tape: vec![0],
    };
    let actual = command.call(&state, 0);
    let expected = (
        State {
            pos: 0,
            tape: vec![0],
        },
        NextAction::GoForward,
    );
    assert_eq!(actual, expected);
}

#[test]
#[allow(non_snake_case)]
fn lib_call__must_increment_vec_value__for_IncrVal() {
    let command = Command::IncrVal;
    let state = State {
        pos: 0,
        tape: vec![0],
    };
    let actual = command.call(&state, 0);
    let expected = (
        State {
            pos: 0,
            tape: vec![1],
        },
        NextAction::GoForward,
    );
    assert_eq!(actual, expected);
}

#[test]
#[allow(non_snake_case)]
fn lib_call__must_decrement_vec_value__for_DecrVal() {
    let command = Command::DecrVal;
    let state = State {
        pos: 0,
        tape: vec![1],
    };
    let actual = command.call(&state, 0);
    let expected = (
        State {
            pos: 0,
            tape: vec![0],
        },
        NextAction::GoForward,
    );
    assert_eq!(actual, expected);
}

#[test]
fn lib_is_iter_start_must_work_for_iter_start() {
    let command = Command::IterStart;
    let actual = command.is_iter_start();
    let expected = true;
    assert_eq!(actual, expected)
}

#[test]
fn lib_is_iter_start_must_work_for_iter_end() {
    let command = Command::IterEnd;
    let actual = command.is_iter_start();
    let expected = false;
    assert_eq!(actual, expected)
}

#[test]
fn lib_is_iter_end_must_work_for_iter_end() {
    let command = Command::IterEnd;
    let actual = command.is_iter_end();
    let expected = true;
    assert_eq!(actual, expected)
}

#[test]
fn lib_interpret_must_work() {
    let s = ">";
    let tape_length = 3;
    let actual = Interpreter::interpret(s, tape_length);
    let expected = vec![
        State {
            pos: 0,
            tape: vec![0; tape_length],
        },
        State {
            pos: 1,
            tape: vec![0; tape_length],
        },
    ];
    assert_eq!(actual, expected)
}

#[test]
fn lib_interpret_must_work_for_loop() {
    let s = "++[-]";
    let tape_length = 1;
    let actual = Interpreter::interpret(s, tape_length);
    let expected = vec![
        State {
            pos: 0,
            tape: vec![0],
        },
        State {
            pos: 0,
            tape: vec![1],
        },
        State {
            pos: 0,
            tape: vec![2],
        },
        State {
            pos: 0,
            tape: vec![2],
        },
        State {
            pos: 0,
            tape: vec![1],
        },
        State {
            pos: 0,
            tape: vec![1],
        },
        State {
            pos: 0,
            tape: vec![1],
        },
        State {
            pos: 0,
            tape: vec![0],
        },
        State {
            pos: 0,
            tape: vec![0],
        },
    ];
    assert_eq!(actual, expected)
}

#[test]
fn lib_convert_str_to_command_must_work() {
    let input = ">< and meaningless string";
    let actual = Interpreter::convert_str_to_command(input);
    let expected = vec![Command::IncrPtr, Command::DecrPtr];
    assert_eq!(actual, expected)
}
