//! The execution engine: instruction dispatch and loop control. The engine
//! owns the tape, the instruction stream, a stack of open-loop start indices
//! and an instruction cursor, and executes one instruction per step.
//!
//! Loop control: `[` with a zero cell skips past the matching `]`, found by a
//! nesting-aware forward scan, and closes the loop if the `[` was the open
//! one on top of the stack; `[` with a nonzero cell opens the loop (pushes
//! its own index, unless it is already the open one on top). `]` jumps back
//! to the `[` on top of the stack, which then re-evaluates its condition, so
//! the stack is managed entirely by the `[` logic.

use vstd::prelude::*;

use crate::input::{parse_input_line, parse_u8, InputError};
use crate::memory::{
    wrap_dec, wrap_inc, wrap_left, wrap_right, ConfigError, Memory, MIN_MEMORY_SIZE,
};

verus! {

/// Failure of the running program's loop structure.
#[derive(Clone, Copy, Debug, PartialEq, Eq, Structural)]
pub enum RuntimeError {
    /// `]` reached with no open loop to return to.
    UnbalancedLoop,
    /// `[` whose body never reaches a closing `]` within the stream.
    UnterminatedLoop,
}

/// One line of output from the `.` instruction: an ASCII letter is emitted
/// as a character, every other byte as its numeric value.
#[derive(Clone, Copy, Debug, PartialEq, Eq, Structural)]
pub enum OutputEvent {
    /// The byte is an ASCII letter; emit it as a character.
    Letter(u8),
    /// Emit the byte as a decimal number.
    Number(u8),
}

/// What one engine step asks of its caller.
#[derive(Clone, Copy, Debug, PartialEq, Eq, Structural)]
pub enum Effect {
    /// The step is complete; nothing to do.
    Quiet,
    /// The step emitted one line of output.
    Output(OutputEvent),
    /// The instruction is `,`: the engine waits for one byte of input,
    /// handed over through `feed_input`.
    WantsInput,
}

/// An ASCII letter, `A`-`Z` or `a`-`z`.
pub open spec fn is_letter(v: u8) -> bool {
    (65 <= v <= 90) || (97 <= v <= 122)
}

/// How the `.` instruction emits a byte.
pub open spec fn output_event_of(v: u8) -> OutputEvent {
    if is_letter(v) {
        OutputEvent::Letter(v)
    } else {
        OutputEvent::Number(v)
    }
}

/// Mathematical state of the engine: the tape cells and cursor, the
/// loop-address stack, and the instruction cursor.
#[verifier::ext_equal]
pub ghost struct MachineState {
    pub cells: Seq<u8>,
    pub cursor: int,
    pub stack: Seq<usize>,
    pub ip: int,
}

/// The position of the `]` that matches an imaginary `[` just before
/// position `i`, at nesting depth `depth`: the first `]` at depth zero,
/// scanning forward; `None` when the stream ends first.
pub open spec fn find_close(s: Seq<char>, i: int, depth: int) -> Option<int>
    decreases s.len() - i,
{
    if i < 0 || i >= s.len() {
        None::<int>
    } else if s[i] == ']' {
        if depth == 0 {
            Some(i)
        } else {
            find_close(s, i + 1, depth - 1)
        }
    } else if s[i] == '[' {
        find_close(s, i + 1, depth + 1)
    } else {
        find_close(s, i + 1, depth)
    }
}

/// A successful forward scan lands on a `]` inside the stream, at or after
/// where it started.
proof fn lemma_find_close_in_range(s: Seq<char>, i: int, depth: int)
    requires
        find_close(s, i, depth) is Some,
    ensures
        i <= find_close(s, i, depth).unwrap() < s.len(),
        s[find_close(s, i, depth).unwrap()] == ']',
    decreases s.len() - i,
{
    if !(i < 0 || i >= s.len()) {
        if s[i] == ']' && depth == 0 {
        } else if s[i] == ']' {
            lemma_find_close_in_range(s, i + 1, depth - 1);
        } else if s[i] == '[' {
            lemma_find_close_in_range(s, i + 1, depth + 1);
        } else {
            lemma_find_close_in_range(s, i + 1, depth);
        }
    }
}

/// Scans forward from the `[` at `start_from` to the matching `]`, tracking
/// nesting depth so that inner `[`/`]` pairs are stepped over; `None` when
/// the stream ends without closing the loop.
pub fn find_matching_bracket(chars: &Vec<char>, start_from: usize) -> (r: Option<usize>)
    requires
        start_from < chars@.len(),
    ensures
        match r {
            Some(j) => {
                &&& find_close(chars@, start_from + 1, 0) == Some(j as int)
                &&& start_from < j < chars@.len()
                &&& chars@[j as int] == ']'
            },
            None => find_close(chars@, start_from + 1, 0) is None,
        },
{
    let n: usize = chars.len();
    let mut i: usize = start_from + 1;
    let mut depth: usize = 0;
    while i < n
        invariant
            start_from + 1 <= i <= n,
            n == chars@.len(),
            depth <= i,
            find_close(chars@, start_from + 1, 0) == find_close(chars@, i as int, depth as int),
        decreases n - i,
    {
        let c = chars[i];
        if c == ']' {
            if depth == 0 {
                proof {
                    lemma_find_close_in_range(chars@, start_from + 1, 0);
                }
                return Some(i);
            }
            depth -= 1;
        } else if c == '[' {
            depth += 1;
        }
        i += 1;
    }
    None
}

/// The state after writing one input byte into the current cell and moving
/// past the `,` instruction.
pub open spec fn feed_m(m: MachineState, value: u8) -> MachineState {
    MachineState {
        cells: m.cells.update(m.cursor, value),
        cursor: m.cursor,
        stack: m.stack,
        ip: m.ip + 1,
    }
}

/// The dispatch table: the state after executing the instruction at `m.ip`,
/// together with what the step returns. `,` leaves the state unchanged and
/// asks for input; a failed loop instruction leaves the state unchanged and
/// reports its error.
pub open spec fn step_m(prog: Seq<char>, m: MachineState) -> (MachineState, Result<
    Effect,
    RuntimeError,
>) {
    let c = prog[m.ip];
    let cell = m.cells[m.cursor];
    if c == '<' {
        (
            MachineState {
                cells: m.cells,
                cursor: wrap_left(m.cursor, m.cells.len() as int),
                stack: m.stack,
                ip: m.ip + 1,
            },
            Ok(Effect::Quiet),
        )
    } else if c == '>' {
        (
            MachineState {
                cells: m.cells,
                cursor: wrap_right(m.cursor, m.cells.len() as int),
                stack: m.stack,
                ip: m.ip + 1,
            },
            Ok(Effect::Quiet),
        )
    } else if c == '+' {
        (
            MachineState {
                cells: m.cells.update(m.cursor, wrap_inc(cell)),
                cursor: m.cursor,
                stack: m.stack,
                ip: m.ip + 1,
            },
            Ok(Effect::Quiet),
        )
    } else if c == '-' {
        (
            MachineState {
                cells: m.cells.update(m.cursor, wrap_dec(cell)),
                cursor: m.cursor,
                stack: m.stack,
                ip: m.ip + 1,
            },
            Ok(Effect::Quiet),
        )
    } else if c == ',' {
        (m, Ok(Effect::WantsInput))
    } else if c == '.' {
        (
            MachineState { cells: m.cells, cursor: m.cursor, stack: m.stack, ip: m.ip + 1 },
            Ok(Effect::Output(output_event_of(cell))),
        )
    } else if c == '[' {
        let on_top = m.stack.len() > 0 && m.stack.last() == m.ip;
        if cell == 0 {
            match find_close(prog, m.ip + 1, 0) {
                Some(j) => (
                    MachineState {
                        cells: m.cells,
                        cursor: m.cursor,
                        stack: if on_top {
                            m.stack.drop_last()
                        } else {
                            m.stack
                        },
                        ip: j + 1,
                    },
                    Ok(Effect::Quiet),
                ),
                None => (m, Err(RuntimeError::UnterminatedLoop)),
            }
        } else {
            (
                MachineState {
                    cells: m.cells,
                    cursor: m.cursor,
                    stack: if on_top {
                        m.stack
                    } else {
                        m.stack.push(m.ip as usize)
                    },
                    ip: m.ip + 1,
                },
                Ok(Effect::Quiet),
            )
        }
    } else if c == ']' {
        if m.stack.len() == 0 {
            (m, Err(RuntimeError::UnbalancedLoop))
        } else {
            (
                MachineState {
                    cells: m.cells,
                    cursor: m.cursor,
                    stack: m.stack,
                    ip: m.stack.last() as int,
                },
                Ok(Effect::Quiet),
            )
        }
    } else {
        // Any other character is a no-op; the cursor simply advances.
        (
            MachineState { cells: m.cells, cursor: m.cursor, stack: m.stack, ip: m.ip + 1 },
            Ok(Effect::Quiet),
        )
    }
}

/// How a bounded run ended.
#[derive(Clone, Copy, Debug, PartialEq, Eq, Structural)]
pub enum RunStatus {
    /// The instruction cursor reached the end of the stream.
    Finished,
    /// The step budget ran out before the program ended.
    OutOfSteps,
    /// A loop instruction failed.
    Runtime(RuntimeError),
    /// A `,` instruction was fed a line it could not read as a byte.
    Input(InputError),
    /// A `,` instruction was reached after the supplied input lines ran out.
    OutOfInput,
}

/// What a bounded run produced: the output lines emitted before it ended,
/// and how it ended.
pub struct RunResult {
    pub outputs: Vec<OutputEvent>,
    pub status: RunStatus,
}

/// A run configuration: the machine state plus the run's bookkeeping — how
/// many input lines are consumed, the output emitted so far, and how the run
/// ended (`None` while it is still going).
#[verifier::ext_equal]
pub ghost struct Cfg {
    pub m: MachineState,
    pub in_idx: int,
    pub outputs: Seq<OutputEvent>,
    pub status: Option<RunStatus>,
}

/// The configuration a run starts from.
pub open spec fn init_cfg(m: MachineState) -> Cfg {
    Cfg { m: m, in_idx: 0, outputs: Seq::empty(), status: None }
}

/// One step of a bounded run: a finished or failed configuration stays as it
/// is; otherwise the instruction under the cursor executes as `step_m` says,
/// output is appended, and a `,` instruction consumes and parses the next
/// input line.
pub open spec fn run_step(prog: Seq<char>, ins: Seq<Seq<char>>, c: Cfg) -> Cfg {
    if c.status is Some {
        c
    } else if c.m.ip >= prog.len() {
        Cfg { m: c.m, in_idx: c.in_idx, outputs: c.outputs, status: Some(RunStatus::Finished) }
    } else {
        let sm = step_m(prog, c.m);
        match sm.1 {
            Ok(Effect::Quiet) => Cfg {
                m: sm.0,
                in_idx: c.in_idx,
                outputs: c.outputs,
                status: None,
            },
            Ok(Effect::Output(ev)) => Cfg {
                m: sm.0,
                in_idx: c.in_idx,
                outputs: c.outputs.push(ev),
                status: None,
            },
            Ok(Effect::WantsInput) => {
                if c.in_idx < ins.len() {
                    match parse_u8(ins[c.in_idx]) {
                        Ok(v) => Cfg {
                            m: feed_m(c.m, v),
                            in_idx: c.in_idx + 1,
                            outputs: c.outputs,
                            status: None,
                        },
                        Err(e) => Cfg {
                            m: c.m,
                            in_idx: c.in_idx,
                            outputs: c.outputs,
                            status: Some(RunStatus::Input(e)),
                        },
                    }
                } else {
                    Cfg {
                        m: c.m,
                        in_idx: c.in_idx,
                        outputs: c.outputs,
                        status: Some(RunStatus::OutOfInput),
                    }
                }
            },
            Err(e) => Cfg {
                m: c.m,
                in_idx: c.in_idx,
                outputs: c.outputs,
                status: Some(RunStatus::Runtime(e)),
            },
        }
    }
}

/// The configuration after `n` steps of a bounded run.
pub open spec fn run_n(prog: Seq<char>, ins: Seq<Seq<char>>, c: Cfg, n: nat) -> Cfg
    decreases n,
{
    if n == 0 {
        c
    } else {
        run_step(prog, ins, run_n(prog, ins, c, (n - 1) as nat))
    }
}

/// A run that has ended stays where it ended: once `run_n` reaches a
/// configuration whose status is set, every later step count gives the same
/// configuration. The step count in `run`'s contract therefore picks out one
/// ended configuration, the same for every count that reaches it.
pub proof fn lemma_run_status_frozen(
    prog: Seq<char>,
    ins: Seq<Seq<char>>,
    c: Cfg,
    n1: nat,
    n2: nat,
)
    requires
        n1 <= n2,
        run_n(prog, ins, c, n1).status is Some,
    ensures
        run_n(prog, ins, c, n2) == run_n(prog, ins, c, n1),
    decreases n2 - n1,
{
    if n2 > n1 {
        lemma_run_status_frozen(prog, ins, c, n1, (n2 - 1) as nat);
    }
}

/// The views of the supplied input lines.
pub open spec fn input_views(ins: Seq<Vec<char>>) -> Seq<Seq<char>> {
    ins.map_values(|v: Vec<char>| v@)
}

/// What `run` returned, related to the iterated `run_step` semantics: after
/// some number `n` of steps from the initial configuration, the run stands
/// exactly at the returned machine state, outputs and status — and a budget
/// exhaustion is reported only at the full budget with the run still going.
pub open spec fn run_result_matches(
    prog: Seq<char>,
    ins: Seq<Seq<char>>,
    m0: MachineState,
    m1: MachineState,
    r: RunResult,
    max_steps: nat,
    n: nat,
) -> bool {
    let c = run_n(prog, ins, init_cfg(m0), n);
    &&& m1 == c.m
    &&& r.outputs@ == c.outputs
    &&& if r.status is OutOfSteps {
        n == max_steps && c.status is None
    } else {
        c.status == Some(r.status)
    }
}

/// The execution engine.
pub struct Engine {
    mem: Memory,
    program: Vec<char>,
    stack: Vec<usize>,
    ip: usize,
}

impl View for Engine {
    type V = MachineState;

    closed spec fn view(&self) -> MachineState {
        MachineState {
            cells: self.mem@.cells,
            cursor: self.mem@.cursor,
            stack: self.stack@,
            ip: self.ip as int,
        }
    }
}

impl Engine {
    /// The instruction stream the engine was built with.
    pub closed spec fn prog(&self) -> Seq<char> {
        self.program@
    }

    /// The engine's internal invariant: the tape is well formed, the
    /// instruction cursor is at most one past the stream's end, and every
    /// stacked loop address lies inside the stream.
    pub open spec fn inv(&self) -> bool {
        &&& self@.cells.len() >= MIN_MEMORY_SIZE
        &&& 0 <= self@.cursor < self@.cells.len()
        &&& 0 <= self@.ip <= self.prog().len()
        &&& forall|k: int|
            0 <= k < self@.stack.len() ==> (#[trigger] self@.stack[k]) < self.prog().len()
    }

    /// Builds an engine over a fresh tape of `size` zeroed cells, cursor and
    /// instruction cursor at 0, no open loops; rejects a tape size below the
    /// minimum.
    pub fn new(program: Vec<char>, size: usize) -> (r: Result<Engine, ConfigError>)
        ensures
            size >= MIN_MEMORY_SIZE ==> (r matches Ok(e) && e.inv() && e.prog() == program@ && e@
                =~= (MachineState {
                cells: Seq::new(size as nat, |k: int| 0u8),
                cursor: 0,
                stack: Seq::empty(),
                ip: 0,
            })),
            size < MIN_MEMORY_SIZE ==> (r matches Err(c) && c == ConfigError::SizeTooSmall),
    {
        match Memory::new(size) {
            Ok(mem) => Ok(Engine { mem, program, stack: Vec::new(), ip: 0 }),
            Err(e) => Err(e),
        }
    }

    /// True when the instruction cursor has reached the end of the stream:
    /// the engine's sole terminal state.
    pub fn done(&self) -> (r: bool)
        ensures
            r == (self@.ip >= self.prog().len()),
    {
        self.ip >= self.program.len()
    }

    /// The engine's tape, for inspection.
    pub fn memory(&self) -> (r: &Memory)
        ensures
            r@.cells == self@.cells,
            r@.cursor == self@.cursor,
    {
        &self.mem
    }

    /// Executes the one instruction under the instruction cursor, exactly as
    /// `step_m` describes: it mutates the tape or the loop state, and
    /// reports output, a request for input, or a loop error.
    pub fn step(&mut self) -> (r: Result<Effect, RuntimeError>)
        requires
            old(self).inv(),
            old(self)@.ip < old(self).prog().len(),
        ensures
            final(self).inv(),
            final(self).prog() == old(self).prog(),
            final(self)@ == step_m(old(self).prog(), old(self)@).0,
            r == step_m(old(self).prog(), old(self)@).1,
    {
        let ghost m0 = self@;
        proof {
            // The instruction cursor fits below the stream length, a usize.
            assert(self.program.len() == self.program@.len());
        }
        let c = self.program[self.ip];
        if c == '<' {
            self.mem.move_left();
            self.ip = self.ip + 1;
            Ok(Effect::Quiet)
        } else if c == '>' {
            self.mem.move_right();
            self.ip = self.ip + 1;
            Ok(Effect::Quiet)
        } else if c == '+' {
            self.mem.inc();
            self.ip = self.ip + 1;
            Ok(Effect::Quiet)
        } else if c == '-' {
            self.mem.dec();
            self.ip = self.ip + 1;
            Ok(Effect::Quiet)
        } else if c == ',' {
            Ok(Effect::WantsInput)
        } else if c == '.' {
            let v = self.mem.get();
            self.ip = self.ip + 1;
            let letter = (65 <= v && v <= 90) || (97 <= v && v <= 122);
            if letter {
                Ok(Effect::Output(OutputEvent::Letter(v)))
            } else {
                Ok(Effect::Output(OutputEvent::Number(v)))
            }
        } else if c == '[' {
            let v = self.mem.get();
            let sl = self.stack.len();
            let on_top = sl > 0 && self.stack[sl - 1] == self.ip;
            if v == 0 {
                match find_matching_bracket(&self.program, self.ip) {
                    Some(j) => {
                        if on_top {
                            self.stack.pop();
                            proof {
                                assert(self.stack@ =~= m0.stack.drop_last());
                            }
                        }
                        self.ip = j + 1;
                        Ok(Effect::Quiet)
                    },
                    None => Err(RuntimeError::UnterminatedLoop),
                }
            } else {
                if !on_top {
                    self.stack.push(self.ip);
                }
                self.ip = self.ip + 1;
                Ok(Effect::Quiet)
            }
        } else if c == ']' {
            let sl = self.stack.len();
            if sl == 0 {
                Err(RuntimeError::UnbalancedLoop)
            } else {
                self.ip = self.stack[sl - 1];
                Ok(Effect::Quiet)
            }
        } else {
            self.ip = self.ip + 1;
            Ok(Effect::Quiet)
        }
    }

    /// Answers a `WantsInput` step: writes the byte into the current cell
    /// and moves past the `,` instruction.
    pub fn feed_input(&mut self, value: u8)
        requires
            old(self).inv(),
            old(self)@.ip < old(self).prog().len(),
            old(self).prog()[old(self)@.ip] == ',',
        ensures
            final(self).inv(),
            final(self).prog() == old(self).prog(),
            final(self)@ == feed_m(old(self)@, value),
    {
        proof {
            // The instruction cursor fits below the stream length, a usize.
            assert(self.program.len() == self.program@.len());
        }
        self.mem.set(value);
        self.ip = self.ip + 1;
        proof {
            assert(self@.cells.len() == old(self)@.cells.len());
            assert(self@ =~= feed_m(old(self)@, value));
        }
    }

    /// Drives the engine for at most `max_steps` dispatch steps, drawing `,`
    /// input from `inputs` line by line and collecting `.` output, exactly
    /// as the iterated `run_step` semantics describes: it stops at the end
    /// of the stream, on a loop or input error, when the input lines run
    /// out, or when the budget is spent, and reports which.
    pub fn run(&mut self, inputs: &Vec<Vec<char>>, max_steps: usize) -> (r: RunResult)
        requires
            old(self).inv(),
        ensures
            final(self).inv(),
            final(self).prog() == old(self).prog(),
            exists|n: nat|
                run_result_matches(
                    old(self).prog(),
                    input_views(inputs@),
                    old(self)@,
                    final(self)@,
                    r,
                    max_steps as nat,
                    n,
                ),
    {
        let ghost prog = self.prog();
        let ghost ins = input_views(inputs@);
        let ghost c0 = init_cfg(self@);
        let mut outputs: Vec<OutputEvent> = Vec::new();
        let mut in_i: usize = 0;
        let mut steps: usize = 0;
        while steps < max_steps
            invariant
                self.inv(),
                self.prog() == prog,
                prog == old(self).prog(),
                steps <= max_steps,
                in_i <= inputs@.len(),
                ins == input_views(inputs@),
                c0 == init_cfg(old(self)@),
                run_n(prog, ins, c0, steps as nat) == (Cfg {
                    m: self@,
                    in_idx: in_i as int,
                    outputs: outputs@,
                    status: None,
                }),
            decreases max_steps - steps,
        {
            let ghost cur = Cfg { m: self@, in_idx: in_i as int, outputs: outputs@, status: None };
            if self.done() {
                proof {
                    assert(run_step(prog, ins, cur) =~= (Cfg {
                        m: cur.m,
                        in_idx: cur.in_idx,
                        outputs: cur.outputs,
                        status: Some(RunStatus::Finished),
                    }));
                }
                let res = RunResult { outputs, status: RunStatus::Finished };
                proof {
                    assert(run_result_matches(
                        prog,
                        ins,
                        old(self)@,
                        self@,
                        res,
                        max_steps as nat,
                        (steps + 1) as nat,
                    ));
                }
                return res;
            }
            let sr = self.step();
            match sr {
                Ok(Effect::Quiet) => {
                    proof {
                        assert(run_step(prog, ins, cur) =~= (Cfg {
                            m: self@,
                            in_idx: in_i as int,
                            outputs: outputs@,
                            status: None,
                        }));
                    }
                },
                Ok(Effect::Output(ev)) => {
                    outputs.push(ev);
                    proof {
                        assert(run_step(prog, ins, cur) =~= (Cfg {
                            m: self@,
                            in_idx: in_i as int,
                            outputs: outputs@,
                            status: None,
                        }));
                    }
                },
                Ok(Effect::WantsInput) => {
                    if in_i < inputs.len() {
                        proof {
                            assert(ins[in_i as int] == inputs@[in_i as int]@);
                        }
                        let line = &inputs[in_i];
                        match parse_input_line(line) {
                            Ok(v) => {
                                self.feed_input(v);
                                in_i += 1;
                                proof {
                                    assert(run_step(prog, ins, cur) =~= (Cfg {
                                        m: self@,
                                        in_idx: in_i as int,
                                        outputs: outputs@,
                                        status: None,
                                    }));
                                }
                            },
                            Err(e) => {
                                proof {
                                    assert(run_step(prog, ins, cur) =~= (Cfg {
                                        m: cur.m,
                                        in_idx: cur.in_idx,
                                        outputs: cur.outputs,
                                        status: Some(RunStatus::Input(e)),
                                    }));
                                }
                                let res = RunResult { outputs, status: RunStatus::Input(e) };
                                proof {
                                    assert(run_result_matches(
                                        prog,
                                        ins,
                                        old(self)@,
                                        self@,
                                        res,
                                        max_steps as nat,
                                        (steps + 1) as nat,
                                    ));
                                }
                                return res;
                            },
                        }
                    } else {
                        proof {
                            assert(run_step(prog, ins, cur) =~= (Cfg {
                                m: cur.m,
                                in_idx: cur.in_idx,
                                outputs: cur.outputs,
                                status: Some(RunStatus::OutOfInput),
                            }));
                        }
                        let res = RunResult { outputs, status: RunStatus::OutOfInput };
                        proof {
                            assert(run_result_matches(
                                prog,
                                ins,
                                old(self)@,
                                self@,
                                res,
                                max_steps as nat,
                                (steps + 1) as nat,
                            ));
                        }
                        return res;
                    }
                },
                Err(e) => {
                    proof {
                        assert(run_step(prog, ins, cur) =~= (Cfg {
                            m: cur.m,
                            in_idx: cur.in_idx,
                            outputs: cur.outputs,
                            status: Some(RunStatus::Runtime(e)),
                        }));
                    }
                    let res = RunResult { outputs, status: RunStatus::Runtime(e) };
                    proof {
                        assert(run_result_matches(
                            prog,
                            ins,
                            old(self)@,
                            self@,
                            res,
                            max_steps as nat,
                            (steps + 1) as nat,
                        ));
                    }
                    return res;
                },
            }
            steps += 1;
        }
        let res = RunResult { outputs, status: RunStatus::OutOfSteps };
        proof {
            assert(run_result_matches(
                prog,
                ins,
                old(self)@,
                self@,
                res,
                max_steps as nat,
                steps as nat,
            ));
        }
        res
    }
}

} // verus!
