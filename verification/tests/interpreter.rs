use tapevm::engine::{
    find_matching_bracket, Engine, OutputEvent, RunResult, RunStatus, RuntimeError,
};
use tapevm::input::{parse_input_line, InputError};
use tapevm::memory::{ConfigError, Memory};
use tapevm::source::remove_comments;

fn chars(s: &str) -> Vec<char> {
    s.chars().collect()
}

fn run_prog(src: &str, inputs: &[&str]) -> (RunResult, Engine) {
    let mut engine = match Engine::new(chars(src), 128) {
        Ok(e) => e,
        Err(_) => panic!("tape size rejected"),
    };
    let ins: Vec<Vec<char>> = inputs.iter().map(|s| chars(s)).collect();
    let r = engine.run(&ins, 100_000);
    (r, engine)
}

#[test]
fn fresh_tape_is_zeroed() {
    let m = Memory::new(128).unwrap();
    assert_eq!(m.size(), 128);
    assert_eq!(m.cursor_pos(), 0);
    for i in 0..128 {
        assert_eq!(m.cell_at(i), Some(0));
    }
    assert_eq!(m.cell_at(128), None);
}

#[test]
fn tape_size_below_minimum_is_rejected() {
    assert_eq!(Memory::new(7).err(), Some(ConfigError::SizeTooSmall));
    assert_eq!(Memory::new(0).err(), Some(ConfigError::SizeTooSmall));
    assert!(Memory::new(8).is_ok());
    assert!(Engine::new(chars("+"), 3).is_err());
}

#[test]
fn move_round_trip_restores_cursor() {
    let mut m = Memory::new(8).unwrap();
    m.move_left();
    assert_eq!(m.cursor_pos(), 7);
    m.move_right();
    assert_eq!(m.cursor_pos(), 0);
    m.move_right();
    assert_eq!(m.cursor_pos(), 1);
    m.move_left();
    assert_eq!(m.cursor_pos(), 0);
}

#[test]
fn cursor_wraps_full_circle() {
    let mut m = Memory::new(8).unwrap();
    for _ in 0..8 {
        m.move_right();
    }
    assert_eq!(m.cursor_pos(), 0);
}

#[test]
fn increment_256_times_is_identity() {
    let mut m = Memory::new(8).unwrap();
    m.set(123);
    for _ in 0..256 {
        m.inc();
    }
    assert_eq!(m.get(), 123);
}

#[test]
fn cell_arithmetic_wraps() {
    let mut m = Memory::new(8).unwrap();
    m.dec();
    assert_eq!(m.get(), 255);
    m.inc();
    assert_eq!(m.get(), 0);
    m.set(255);
    m.inc();
    assert_eq!(m.get(), 0);
}

#[test]
fn set_then_get() {
    let mut m = Memory::new(8).unwrap();
    m.set(200);
    assert_eq!(m.get(), 200);
    assert_eq!(m.cell_at(0), Some(200));
}

#[test]
fn program_prints_byte_three() {
    let (r, _) = run_prog("+++.", &[]);
    assert_eq!(r.status, RunStatus::Finished);
    assert_eq!(r.outputs, vec![OutputEvent::Number(3)]);
}

#[test]
fn cell_doubling_loop_prints_sixty_four() {
    let (r, engine) = run_prog("++++++++[>++++++++<-]>.", &[]);
    assert_eq!(r.status, RunStatus::Finished);
    assert_eq!(r.outputs, vec![OutputEvent::Number(64)]);
    assert_eq!(engine.memory().cell_at(1), Some(64));
    assert_eq!(engine.memory().get(), 64);
    assert_eq!(engine.memory().cell_at(0), Some(0));
}

#[test]
fn letter_byte_prints_as_character() {
    let mut src = "+".repeat(66);
    src.push('.');
    let (r, _) = run_prog(&src, &[]);
    assert_eq!(r.status, RunStatus::Finished);
    assert_eq!(r.outputs, vec![OutputEvent::Letter(66)]);

    let mut lower = "+".repeat(97);
    lower.push('.');
    let (rl, _) = run_prog(&lower, &[]);
    assert_eq!(rl.outputs, vec![OutputEvent::Letter(97)]);
}

#[test]
fn bytes_next_to_the_letter_ranges_print_as_numbers() {
    for v in [64usize, 91, 96, 123] {
        let mut src = "+".repeat(v);
        src.push('.');
        let (r, _) = run_prog(&src, &[]);
        assert_eq!(r.outputs, vec![OutputEvent::Number(v as u8)]);
    }
}

#[test]
fn lone_close_bracket_is_unbalanced() {
    let (r, _) = run_prog("]", &[]);
    assert_eq!(r.status, RunStatus::Runtime(RuntimeError::UnbalancedLoop));
    assert_eq!(r.outputs, vec![]);
}

#[test]
fn lone_open_bracket_is_unterminated() {
    let (r, _) = run_prog("[", &[]);
    assert_eq!(r.status, RunStatus::Runtime(RuntimeError::UnterminatedLoop));
}

#[test]
fn unterminated_loop_found_mid_program() {
    let (r, _) = run_prog("+-[", &[]);
    assert_eq!(r.status, RunStatus::Runtime(RuntimeError::UnterminatedLoop));
}

#[test]
fn open_loop_may_run_off_the_end() {
    // With a nonzero cell, `[` only opens the loop; reaching the end of the
    // stream afterwards is the engine's normal terminal state.
    let (r, _) = run_prog("+[-", &[]);
    assert_eq!(r.status, RunStatus::Finished);
}

#[test]
fn skipping_a_loop_steps_over_nested_brackets() {
    // The scan for the matching `]` must track nesting: stopping at the
    // first `]` would resume inside the loop and fail on the outer `]`.
    let (r, _) = run_prog("[[-]]+.", &[]);
    assert_eq!(r.status, RunStatus::Finished);
    assert_eq!(r.outputs, vec![OutputEvent::Number(1)]);
}

#[test]
fn nested_loops_execute() {
    // 2 outer iterations, each adding 3 to cell 1 via an inner loop.
    let (r, engine) = run_prog("++[>+++[>+<-]<-]>>.", &[]);
    assert_eq!(r.status, RunStatus::Finished);
    assert_eq!(r.outputs, vec![OutputEvent::Number(6)]);
    assert_eq!(engine.memory().cell_at(2), Some(6));
}

#[test]
fn find_matching_bracket_tracks_nesting() {
    let src = chars("[[-]]");
    assert_eq!(find_matching_bracket(&src, 0), Some(4));
    assert_eq!(find_matching_bracket(&src, 1), Some(3));
    assert_eq!(find_matching_bracket(&chars("[++"), 0), None);
}

#[test]
fn other_characters_are_no_ops() {
    let (r, engine) = run_prog("x+y.z", &[]);
    assert_eq!(r.status, RunStatus::Finished);
    assert_eq!(r.outputs, vec![OutputEvent::Number(1)]);
    assert_eq!(engine.memory().cell_at(0), Some(1));
}

#[test]
fn comment_stripping_drops_rest_of_line() {
    assert_eq!(remove_comments(&chars("++#this is ignored\n+")), chars("+++"));
    assert_eq!(remove_comments(&chars("#only a comment")), chars(""));
    assert_eq!(remove_comments(&chars("+\r\n+")), chars("++"));
}

#[test]
fn commented_program_has_same_effect() {
    let (r1, e1) = run_prog(
        &remove_comments(&chars("++#this is ignored\n+"))
            .into_iter()
            .collect::<String>(),
        &[],
    );
    let (r2, e2) = run_prog("++\n+", &[]);
    assert_eq!(r1.status, RunStatus::Finished);
    assert_eq!(r2.status, RunStatus::Finished);
    assert_eq!(e1.memory().cell_at(0), Some(3));
    assert_eq!(e2.memory().cell_at(0), Some(3));
    assert_eq!(r1.outputs, r2.outputs);
}

#[test]
fn input_out_of_range_is_reported() {
    let (r, _) = run_prog(",", &["300"]);
    assert_eq!(r.status, RunStatus::Input(InputError::OutOfRange));
    assert_eq!(parse_input_line(&chars("300")), Err(InputError::OutOfRange));
    assert_eq!(parse_input_line(&chars("256")), Err(InputError::OutOfRange));
}

#[test]
fn input_not_a_number_is_reported() {
    let (r, _) = run_prog(",", &["abc"]);
    assert_eq!(r.status, RunStatus::Input(InputError::NotANumber));
    assert_eq!(parse_input_line(&chars("abc")), Err(InputError::NotANumber));
    assert_eq!(parse_input_line(&chars("")), Err(InputError::NotANumber));
    assert_eq!(parse_input_line(&chars("  ")), Err(InputError::NotANumber));
    assert_eq!(parse_input_line(&chars("12a")), Err(InputError::NotANumber));
    assert_eq!(parse_input_line(&chars("-1")), Err(InputError::NotANumber));
}

#[test]
fn input_parses_trimmed_decimal() {
    assert_eq!(parse_input_line(&chars("0")), Ok(0));
    assert_eq!(parse_input_line(&chars("255")), Ok(255));
    assert_eq!(parse_input_line(&chars(" 42 \n")), Ok(42));
    assert_eq!(parse_input_line(&chars("007")), Ok(7));
}

#[test]
fn input_reaches_the_cell() {
    let (r, engine) = run_prog(",.", &["65"]);
    assert_eq!(r.status, RunStatus::Finished);
    assert_eq!(r.outputs, vec![OutputEvent::Letter(65)]);
    assert_eq!(engine.memory().cell_at(0), Some(65));
}

#[test]
fn exhausted_input_is_reported() {
    let (r, _) = run_prog(",", &[]);
    assert_eq!(r.status, RunStatus::OutOfInput);
    let (r2, _) = run_prog(",,", &["1"]);
    assert_eq!(r2.status, RunStatus::OutOfInput);
}

#[test]
fn endless_loop_runs_out_of_steps() {
    let (r, _) = run_prog("+[]", &[]);
    assert_eq!(r.status, RunStatus::OutOfSteps);
}

#[test]
fn empty_program_finishes_at_once() {
    let (r, _) = run_prog("", &[]);
    assert_eq!(r.status, RunStatus::Finished);
    assert_eq!(r.outputs, vec![]);
}
