//! The debugger's state and its commands: stepping, running to a
//! breakpoint, breakpoints, and the register listings it shows.

use crate::binary::DebugInfo;
use crate::execute::{step_error_text, step_overflows, step_spec, StepError};
use crate::machine::{Machine, MachineState};
use crate::register::{reg_at, spec_reg_at, spec_reg_name, SpecialRegister};
use crate::parse::parse_unsigned;
use crate::text::{chars_of, decimal, hex, is_digit, push_char, push_decimal, push_hex, push_str, trim, trim_chars, utf8};
use std::collections::{HashMap, HashSet};
use vstd::prelude::*;

verus! {

broadcast use vstd::std_specs::hash::group_hash_axioms;

/// What keystrokes mean at the moment.
#[derive(Debug, Clone, Copy, PartialEq, Eq, Structural)]
pub enum InputMode {
    Normal,
    BreakpointInput,
}

/// What `String::from_utf8_lossy` makes of some bytes.
pub uninterp spec fn utf8_lossy(b: Seq<u8>) -> Seq<char>;

/// `String::from_utf8_lossy`, as an owned string. Its documentation
/// promises that valid UTF-8 comes through unchanged; what replaces invalid
/// sequences is left unsaid.
#[verifier::external_body]
fn text_of_bytes(b: &[u8]) -> (s: String)
    ensures
        s@ == utf8_lossy(b@),
        (exists|t: Seq<char>| utf8(t) == b@) ==> utf8(s@) == b@,
{
    String::from_utf8_lossy(b).into_owned()
}

/// The debugger: a machine with the program loaded, the source it came
/// from, breakpoints, and what the screen shows.
pub struct App {
    pub machine: Machine,
    pub source_lines: Vec<String>,
    pub addr_to_line: HashMap<u64, usize>,
    pub breakpoints: HashSet<usize>,
    pub output: String,
    pub running: bool,
    pub step_mode: bool,
    pub halted: bool,
    pub status_msg: String,
    pub input_mode: InputMode,
    pub bp_input: String,
    pub code_scroll: usize,
    pub reg_scroll: usize,
    pub error_msg: Option<String>,
}

/// The status line after a step that stopped at `pc`.
pub open spec fn pc_status(pc: u64, lines: Map<u64, usize>) -> Seq<char> {
    if lines.contains_key(pc) {
        "PC="@ + hex(pc as nat) + " line "@ + decimal((lines[pc] + 1) as nat)
    } else {
        "PC="@ + hex(pc as nat)
    }
}

/// Whether the machine stands on a line that has a breakpoint.
pub open spec fn at_breakpoint(s: MachineState, bps: Set<usize>, lines: Map<u64, usize>) -> bool {
    lines.contains_key(s.pc) && bps.contains(lines[s.pc])
}

/// Running until the machine halts, fails, or steps onto a breakpoint,
/// within `fuel` steps: the final state, the error if a step failed, and
/// whether a breakpoint stopped it.
pub open spec fn run_to_breakpoint(
    s: MachineState,
    bps: Set<usize>,
    lines: Map<u64, usize>,
    fuel: nat,
) -> (MachineState, Option<StepError>, bool)
    decreases fuel,
{
    if s.halted || fuel == 0 {
        (s, None, false)
    } else {
        match step_spec(s) {
            Err(e) => (s, Some(e), false),
            Ok(s2) => if at_breakpoint(s2, bps, lines) {
                (s2, None, true)
            } else {
                run_to_breakpoint(s2, bps, lines, (fuel - 1) as nat)
            },
        }
    }
}

/// Whether such a run stops within `fuel` steps, with no step overflowing.
pub open spec fn stops_at_breakpoint_within(
    s: MachineState,
    bps: Set<usize>,
    lines: Map<u64, usize>,
    fuel: nat,
) -> bool
    decreases fuel,
{
    if s.halted {
        true
    } else if fuel == 0 || step_overflows(s) {
        false
    } else {
        match step_spec(s) {
            Err(_) => true,
            Ok(s2) => at_breakpoint(s2, bps, lines) || stops_at_breakpoint_within(
                s2,
                bps,
                lines,
                (fuel - 1) as nat,
            ),
        }
    }
}

/// A run that stops gives one result, whatever fuel it is given beyond.
pub proof fn lemma_run_to_breakpoint_fuel(
    s: MachineState,
    bps: Set<usize>,
    lines: Map<u64, usize>,
    f1: nat,
    f2: nat,
)
    requires
        stops_at_breakpoint_within(s, bps, lines, f1),
        stops_at_breakpoint_within(s, bps, lines, f2),
    ensures
        run_to_breakpoint(s, bps, lines, f1) == run_to_breakpoint(s, bps, lines, f2),
    decreases f1,
{
    if !s.halted {
        match step_spec(s) {
            Err(_) => {},
            Ok(s2) => {
                if !at_breakpoint(s2, bps, lines) {
                    lemma_run_to_breakpoint_fuel(s2, bps, lines, (f1 - 1) as nat, (f2 - 1) as nat);
                }
            },
        }
    }
}

/// A run that a breakpoint stopped stands on a line with a breakpoint; a
/// run that stopped otherwise, without an error, ended in a halt.
pub proof fn lemma_run_to_breakpoint_ends(s: MachineState, bps: Set<usize>, lines: Map<u64, usize>, fuel: nat)
    requires
        stops_at_breakpoint_within(s, bps, lines, fuel),
    ensures
        ({
            let (s2, err, hit) = run_to_breakpoint(s, bps, lines, fuel);
            &&& hit ==> at_breakpoint(s2, bps, lines)
            &&& err is None && !hit ==> s2.halted
        }),
    decreases fuel,
{
    if !s.halted {
        match step_spec(s) {
            Err(_) => {},
            Ok(s2) => {
                if !at_breakpoint(s2, bps, lines) {
                    lemma_run_to_breakpoint_ends(s2, bps, lines, (fuel - 1) as nat);
                }
            },
        }
    }
}

/// The fields that only the keyboard and the screen change.
pub open spec fn same_frame(a: &App, b: &App) -> bool {
    &&& a.source_lines@ == b.source_lines@
    &&& a.addr_to_line@ == b.addr_to_line@
    &&& a.breakpoints@ == b.breakpoints@
    &&& a.input_mode == b.input_mode
    &&& a.bp_input@ == b.bp_input@
    &&& a.code_scroll == b.code_scroll
    &&& a.reg_scroll == b.reg_scroll
}

/// The output text with the machine's pending output appended.
pub open spec fn collected(output: Seq<char>, pending: Seq<u8>) -> Seq<char> {
    if pending.len() == 0 {
        output
    } else {
        output + utf8_lossy(pending)
    }
}

/// Every line index in the map can be counted from 1.
pub open spec fn lines_countable(lines: Map<u64, usize>) -> bool {
    forall|a: u64| #[trigger] lines.contains_key(a) ==> lines[a] < usize::MAX
}

/// The status line after a breakpoint stopped a run at `pc`.
pub open spec fn breakpoint_status(pc: u64, lines: Map<u64, usize>) -> Seq<char> {
    "Breakpoint hit at line "@ + decimal(
        if lines.contains_key(pc) {
            (lines[pc] + 1) as nat
        } else {
            0
        },
    ) + " (step mode: s=step r=run q=quit)"@
}

/// Appends `line + 1` in decimal.
fn push_line_number(s: &mut String, line: usize)
    requires
        line < usize::MAX,
    ensures
        final(s)@ == old(s)@ + decimal((line + 1) as nat),
{
    push_decimal(s, (line + 1) as u64);
}

/// Whether the machine stands on a line with a breakpoint.
fn on_breakpoint(m: &Machine, bps: &HashSet<usize>, lines: &HashMap<u64, usize>) -> (r: bool)
    ensures
        r == at_breakpoint(m@, bps@, lines@),
{
    match lines.get(&m.pc) {
        Some(l) => bps.contains(l),
        None => false,
    }
}

/// Steps the machine until it halts, fails, or steps onto a breakpoint:
/// the outcome, and whether a breakpoint stopped it.
fn run_machine(m: &mut Machine, bps: &HashSet<usize>, lines: &HashMap<u64, usize>) -> (r: (
    Option<StepError>,
    bool,
))
    requires
        exists|fuel: nat| stops_at_breakpoint_within(old(m)@, bps@, lines@, fuel),
    ensures
        forall|fuel: nat|
            #[trigger] stops_at_breakpoint_within(old(m)@, bps@, lines@, fuel) ==> run_to_breakpoint(
                old(m)@,
                bps@,
                lines@,
                fuel,
            ) == (final(m)@, r.0, r.1),
        r.0 is None && !final(m).halted ==> r.1,
{
    let ghost s0 = m@;
    let ghost f0: nat = choose|fuel: nat| stops_at_breakpoint_within(s0, bps@, lines@, fuel);
    let ghost mut f: nat = f0;
    let mut hit = false;
    let mut result: Option<StepError> = None;
    while !m.halted
        invariant_except_break
            stops_at_breakpoint_within(m@, bps@, lines@, f),
            run_to_breakpoint(s0, bps@, lines@, f0) == run_to_breakpoint(m@, bps@, lines@, f),
            !hit,
            result is None,
        ensures
            run_to_breakpoint(s0, bps@, lines@, f0) == (m@, result, hit),
            result is None && !m.halted ==> hit,
        decreases f,
    {
        let ghost prev = m@;
        match m.step() {
            Ok(()) => {
                proof {
                    assert(step_spec(prev) == Ok::<MachineState, StepError>(m@));
                    assert(f > 0);
                    assert(run_to_breakpoint(prev, bps@, lines@, f) == if at_breakpoint(
                        m@,
                        bps@,
                        lines@,
                    ) {
                        (m@, None::<StepError>, true)
                    } else {
                        run_to_breakpoint(m@, bps@, lines@, (f - 1) as nat)
                    });
                    f = (f - 1) as nat;
                }
                if on_breakpoint(m, bps, lines) {
                    hit = true;
                    break;
                }
            },
            Err(e) => {
                proof {
                    assert(run_to_breakpoint(prev, bps@, lines@, f) == (
                        prev,
                        Some(e),
                        false,
                    ));
                }
                result = Some(e);
                break;
            },
        }
    }
    proof {
        if result is None && !hit {
            assert(run_to_breakpoint(m@, bps@, lines@, f) == (m@, None::<StepError>, false));
        }
        assert forall|fuel: nat| #[trigger]
            stops_at_breakpoint_within(s0, bps@, lines@, fuel) implies run_to_breakpoint(
            s0,
            bps@,
            lines@,
            fuel,
        ) == run_to_breakpoint(s0, bps@, lines@, f0) by {
            lemma_run_to_breakpoint_fuel(s0, bps@, lines@, fuel, f0);
        }
    }
    (result, hit)
}

/// `b` is `a` after one debugger step: after a halt the status says so
/// and nothing else changes; otherwise the machine steps, its output moves
/// to the output text, and the flags and the status line tell how the step
/// ended.
pub open spec fn stepped(a: &App, b: &App) -> bool {
    &&& same_frame(b, a)
    &&& a.halted ==> {
        &&& b.status_msg@ == "Program halted"@
        &&& b.machine@ == a.machine@
        &&& b.output@ == a.output@
        &&& b.halted
        &&& b.running == a.running
        &&& b.step_mode == a.step_mode
        &&& b.error_msg == a.error_msg
    }
    &&& !a.halted ==> match step_spec(a.machine@) {
        Ok(s) => {
            &&& b.machine@ == (MachineState { output: Seq::empty(), ..s })
            &&& b.output@ == collected(a.output@, s.output)
            &&& b.error_msg is None
            &&& if s.halted {
                &&& b.halted && !b.running && !b.step_mode
                &&& b.status_msg@ == "Program halted"@
            } else {
                &&& !b.halted
                &&& b.running == a.running
                &&& b.step_mode == a.step_mode
                &&& b.status_msg@ == pc_status(s.pc, a.addr_to_line@)
            }
        },
        Err(e) => {
            &&& b.halted && !b.running && !b.step_mode
            &&& b.error_msg matches Some(m) && m@ == step_error_text(e)
            &&& b.status_msg@ == "Error: "@ + step_error_text(e)
            &&& b.machine@ == a.machine@
            &&& b.output@ == a.output@
        },
    }
}

/// What the debugger shows of the program and the machine is the same.
pub open spec fn keeps_program(a: &App, b: &App) -> bool {
    &&& b.machine@ == a.machine@
    &&& b.source_lines@ == a.source_lines@
    &&& b.addr_to_line@ == a.addr_to_line@
    &&& b.breakpoints@ == a.breakpoints@
    &&& b.output@ == a.output@
    &&& b.running == a.running
    &&& b.step_mode == a.step_mode
    &&& b.halted == a.halted
    &&& b.error_msg == a.error_msg
}

/// The screen fields not named as changing are the same.
pub open spec fn keeps_screen(a: &App, b: &App, status: bool, mode: bool, input: bool, code: bool, regs: bool) -> bool {
    &&& !status ==> b.status_msg@ == a.status_msg@
    &&& !mode ==> b.input_mode == a.input_mode
    &&& !input ==> b.bp_input@ == a.bp_input@
    &&& !code ==> b.code_scroll == a.code_scroll
    &&& !regs ==> b.reg_scroll == a.reg_scroll
}

/// `b` is `a` with the breakpoint on `line` set if it was not, removed if
/// it was, and the status line saying which.
pub open spec fn toggled_breakpoint(a: &App, b: &App, line: usize) -> bool {
    &&& a.breakpoints@.contains(line) ==> {
        &&& b.breakpoints@ == a.breakpoints@.remove(line)
        &&& b.status_msg@ == "Breakpoint removed at line "@ + decimal((line + 1) as nat)
    }
    &&& !a.breakpoints@.contains(line) ==> {
        &&& b.breakpoints@ == a.breakpoints@.insert(line)
        &&& b.status_msg@ == "Breakpoint set at line "@ + decimal((line + 1) as nat)
    }
    &&& b.machine@ == a.machine@
    &&& b.output@ == a.output@
    &&& b.source_lines@ == a.source_lines@
    &&& b.addr_to_line@ == a.addr_to_line@
    &&& b.running == a.running
    &&& b.step_mode == a.step_mode
    &&& b.halted == a.halted
    &&& b.error_msg == a.error_msg
}

/// [`toggled_breakpoint`], with the rest of the screen unchanged.
pub open spec fn toggled(a: &App, b: &App, line: usize) -> bool {
    toggled_breakpoint(a, b, line) && keeps_screen(a, b, true, false, false, false, false)
}

/// Toggling the same line twice leaves the breakpoints as they were.
pub proof fn lemma_toggle_twice(a: &App, b: &App, c: &App, line: usize)
    requires
        toggled(a, b, line),
        toggled(b, c, line),
    ensures
        c.breakpoints@ == a.breakpoints@,
{
    assert(c.breakpoints@ =~= a.breakpoints@);
}

/// A key of the debugger's keyboard.
#[derive(Debug, Clone, Copy, PartialEq, Eq, Structural)]
pub enum Key {
    Char(char),
    Enter,
    Esc,
    Backspace,
    Up,
    Down,
    Other,
}

/// What the event loop does after a key.
#[derive(Debug, Clone, Copy, PartialEq, Eq, Structural)]
pub enum Outcome {
    Continue,
    Quit,
}

/// Whether `key` makes the debugger step the machine.
pub open spec fn key_steps(a: &App, key: Key) -> bool {
    a.input_mode == InputMode::Normal && (key == Key::Char('s') || key == Key::Char('n'))
}

/// What a key does to the debugger, `a` before and `b` after.
pub open spec fn key_effect(a: &App, b: &App, key: Key) -> bool {
    match a.input_mode {
        InputMode::BreakpointInput => match key {
            Key::Enter => {
                &&& b.input_mode == InputMode::Normal
                &&& b.bp_input@ == Seq::<char>::empty()
                &&& b.code_scroll == a.code_scroll
                &&& b.reg_scroll == a.reg_scroll
                &&& match parse_unsigned(trim(a.bp_input@), 10, usize::MAX as nat) {
                    Ok(n) => if 0 < n <= a.source_lines@.len() {
                        toggled_breakpoint(a, b, (n - 1) as usize)
                    } else {
                        &&& keeps_program(a, b)
                        &&& b.status_msg@ == "Invalid line number: "@ + decimal(n)
                    },
                    Err(_) => {
                        &&& keeps_program(a, b)
                        &&& b.status_msg@ == "Invalid input"@
                    },
                }
            },
            Key::Esc => {
                &&& keeps_program(a, b)
                &&& keeps_screen(a, b, true, true, true, false, false)
                &&& b.input_mode == InputMode::Normal
                &&& b.bp_input@ == Seq::<char>::empty()
                &&& b.status_msg@ == "Breakpoint cancelled"@
            },
            Key::Backspace => {
                &&& keeps_program(a, b)
                &&& keeps_screen(a, b, false, false, true, false, false)
                &&& b.bp_input@ == if a.bp_input@.len() > 0 {
                    a.bp_input@.drop_last()
                } else {
                    a.bp_input@
                }
            },
            Key::Char(c) => {
                &&& keeps_program(a, b)
                &&& keeps_screen(a, b, false, false, true, false, false)
                &&& b.bp_input@ == if is_digit(c) {
                    a.bp_input@.push(c)
                } else {
                    a.bp_input@
                }
            },
            _ => keeps_program(a, b) && keeps_screen(a, b, false, false, false, false, false),
        },
        InputMode::Normal => match key {
            Key::Char('s') => stepped(a, b),
            Key::Char('n') => stepped(a, b),
            Key::Char('r') => if a.halted {
                keeps_program(a, b) && keeps_screen(a, b, false, false, false, false, false)
            } else {
                &&& b.running
                &&& b.status_msg@ == "Running... (press any key to stop)"@
                &&& b.machine@ == a.machine@
                &&& b.source_lines@ == a.source_lines@
                &&& b.addr_to_line@ == a.addr_to_line@
                &&& b.breakpoints@ == a.breakpoints@
                &&& b.output@ == a.output@
                &&& b.step_mode == a.step_mode
                &&& b.halted == a.halted
                &&& b.error_msg == a.error_msg
                &&& keeps_screen(a, b, true, false, false, false, false)
            },
            Key::Char('b') => {
                &&& keeps_program(a, b)
                &&& keeps_screen(a, b, true, true, true, false, false)
                &&& b.input_mode == InputMode::BreakpointInput
                &&& b.bp_input@ == Seq::<char>::empty()
                &&& b.status_msg@ == "Enter line number for breakpoint:"@
            },
            Key::Up => {
                &&& keeps_program(a, b)
                &&& keeps_screen(a, b, false, false, false, true, false)
                &&& b.code_scroll == if a.code_scroll > 0 {
                    (a.code_scroll - 1) as usize
                } else {
                    0
                }
            },
            Key::Down => {
                let last: int = if a.source_lines@.len() > 0 {
                    a.source_lines@.len() - 1
                } else {
                    0
                };
                &&& keeps_program(a, b)
                &&& keeps_screen(a, b, false, false, false, true, false)
                &&& b.code_scroll == if a.code_scroll + 1 < last {
                    a.code_scroll + 1
                } else {
                    last
                }
            },
            Key::Char('j') => {
                &&& keeps_program(a, b)
                &&& keeps_screen(a, b, false, false, false, false, true)
                &&& b.reg_scroll == if a.reg_scroll < usize::MAX {
                    (a.reg_scroll + 1) as usize
                } else {
                    a.reg_scroll
                }
            },
            Key::Char('k') => {
                &&& keeps_program(a, b)
                &&& keeps_screen(a, b, false, false, false, false, true)
                &&& b.reg_scroll == if a.reg_scroll > 0 {
                    (a.reg_scroll - 1) as usize
                } else {
                    0
                }
            },
            _ => keeps_program(a, b) && keeps_screen(a, b, false, false, false, false, false),
        },
    }
}

/// `String::pop`, which removes the last character if there is one.
#[verifier::external_body]
fn pop_char(s: &mut String)
    ensures
        final(s)@ == if old(s)@.len() > 0 {
            old(s)@.drop_last()
        } else {
            old(s)@
        },
{
    s.pop();
}

impl App {
    /// A debugger for the program `code` loaded at `entry_addr`.
    pub fn from_binary(entry_addr: u64, code: &[u8], debug_info: DebugInfo) -> (app: Self)
        ensures
            app.machine@ == (MachineState {
                memory: crate::memory::store_bytes(Map::empty(), entry_addr, code@),
                pc: entry_addr,
                ..crate::machine::initial_state()
            }),
            app.source_lines@ == debug_info.source_lines@,
            app.addr_to_line@ == debug_info.offset_to_line@,
            app.breakpoints@ == Set::<usize>::empty(),
            app.output@ == Seq::<char>::empty(),
            !app.running && !app.step_mode && !app.halted,
            app.status_msg@ == "Ready. s=step r=run b=breakpoint q=quit"@,
            app.input_mode == InputMode::Normal,
            app.bp_input@ == Seq::<char>::empty(),
            app.code_scroll == 0 && app.reg_scroll == 0,
            app.error_msg is None,
    {
        let mut machine = Machine::new();
        machine.load_raw(entry_addr, code);
        machine.set_entry(entry_addr);
        let mut status_msg = String::new();
        push_str(&mut status_msg, "Ready. s=step r=run b=breakpoint q=quit");
        App {
            machine,
            source_lines: debug_info.source_lines,
            addr_to_line: debug_info.offset_to_line,
            breakpoints: HashSet::new(),
            output: String::new(),
            running: false,
            step_mode: false,
            halted: false,
            status_msg,
            input_mode: InputMode::Normal,
            bp_input: String::new(),
            code_scroll: 0,
            reg_scroll: 0,
            error_msg: None,
        }
    }

    /// Moves the machine's pending output to the output text.
    fn collect_output(&mut self)
        ensures
            final(self).output@ == collected(old(self).output@, old(self).machine.output_buffer@),
            final(self).machine@ == (MachineState { output: Seq::empty(), ..old(self).machine@ }),
            same_frame(final(self), old(self)),
            final(self).running == old(self).running,
            final(self).step_mode == old(self).step_mode,
            final(self).halted == old(self).halted,
            final(self).status_msg@ == old(self).status_msg@,
            final(self).error_msg == old(self).error_msg,
    {
        if self.machine.output_buffer.len() > 0 {
            let text = text_of_bytes(self.machine.output_buffer.as_slice());
            self.output.append(text.as_str());
            self.machine.output_buffer.clear();
        } else {
            assert(self.machine.output_buffer@ =~= Seq::<u8>::empty());
        }
    }

    /// Stops after an error `e`: the machine is treated as halted.
    fn fail(&mut self, e: StepError)
        ensures
            final(self).halted && !final(self).running && !final(self).step_mode,
            final(self).error_msg matches Some(m) && m@ == step_error_text(e),
            final(self).status_msg@ == "Error: "@ + step_error_text(e),
            final(self).machine@ == old(self).machine@,
            final(self).output@ == old(self).output@,
            same_frame(final(self), old(self)),
    {
        self.halted = true;
        self.running = false;
        self.step_mode = false;
        let m = e.message();
        let mut status = String::new();
        push_str(&mut status, "Error: ");
        push_str(&mut status, m.as_str());
        self.error_msg = Some(m);
        self.status_msg = status;
    }

    /// Stops because the machine halted.
    fn finish(&mut self)
        ensures
            final(self).halted && !final(self).running && !final(self).step_mode,
            final(self).status_msg@ == "Program halted"@,
            final(self).machine@ == old(self).machine@,
            final(self).output@ == old(self).output@,
            final(self).error_msg == old(self).error_msg,
            same_frame(final(self), old(self)),
    {
        self.halted = true;
        self.running = false;
        self.step_mode = false;
        let mut status = String::new();
        push_str(&mut status, "Program halted");
        self.status_msg = status;
    }

    /// Executes one instruction and updates the screen state; after a halt
    /// it only says so.
    pub fn step(&mut self)
        requires
            !old(self).halted ==> !step_overflows(old(self).machine@),
            !old(self).halted ==> lines_countable(old(self).addr_to_line@),
        ensures
            stepped(old(self), final(self)),
    {
        if self.halted {
            let mut status = String::new();
            push_str(&mut status, "Program halted");
            self.status_msg = status;
            return;
        }
        match self.machine.step() {
            Ok(()) => {
                self.collect_output();
                if self.machine.halted {
                    self.finish();
                } else {
                    let pc = self.machine.pc;
                    let mut status = String::new();
                    push_str(&mut status, "PC=");
                    push_hex(&mut status, pc);
                    match self.addr_to_line.get(&pc) {
                        Some(line) => {
                            push_str(&mut status, " line ");
                            push_line_number(&mut status, *line);
                        },
                        None => {},
                    }
                    assert(status@ =~= pc_status(pc, self.addr_to_line@));
                    self.status_msg = status;
                }
                self.error_msg = None;
            },
            Err(e) => {
                self.fail(e);
            },
        }
    }

    /// The source line the program counter stands on, if any.
    pub fn current_line(&self) -> (r: Option<usize>)
        ensures
            r == (if self.addr_to_line@.contains_key(self.machine.pc) {
                Some(self.addr_to_line@[self.machine.pc])
            } else {
                None
            }),
    {
        match self.addr_to_line.get(&self.machine.pc) {
            Some(l) => Some(*l),
            None => None,
        }
    }

    /// Runs until the program halts, fails, or steps onto a line with a
    /// breakpoint, then shows where it stopped.
    pub fn run_continuous(&mut self)
        requires
            !old(self).halted ==> exists|fuel: nat|
                stops_at_breakpoint_within(
                    old(self).machine@,
                    old(self).breakpoints@,
                    old(self).addr_to_line@,
                    fuel,
                ),
            !old(self).halted ==> lines_countable(old(self).addr_to_line@),
        ensures
            same_frame(final(self), old(self)),
            old(self).halted ==> {
                &&& final(self).status_msg@ == "Program halted"@
                &&& final(self).machine@ == old(self).machine@
                &&& final(self).output@ == old(self).output@
                &&& final(self).halted
                &&& final(self).running == old(self).running
                &&& final(self).step_mode == old(self).step_mode
                &&& final(self).error_msg == old(self).error_msg
            },
            !old(self).halted ==> forall|fuel: nat|
                #[trigger] stops_at_breakpoint_within(
                    old(self).machine@,
                    old(self).breakpoints@,
                    old(self).addr_to_line@,
                    fuel,
                ) ==> {
                    let (s, res, hit) = run_to_breakpoint(
                        old(self).machine@,
                        old(self).breakpoints@,
                        old(self).addr_to_line@,
                        fuel,
                    );
                    &&& final(self).machine@ == (MachineState { output: Seq::empty(), ..s })
                    &&& final(self).output@ == collected(old(self).output@, s.output)
                    &&& match res {
                        None => {
                            &&& final(self).error_msg is None
                            &&& if s.halted {
                                &&& final(self).halted && !final(self).running
                                    && !final(self).step_mode
                                &&& final(self).status_msg@ == "Program halted"@
                            } else {
                                &&& hit
                                &&& !final(self).halted
                                &&& final(self).running == old(self).running
                                &&& final(self).step_mode
                                &&& final(self).status_msg@ == breakpoint_status(
                                    s.pc,
                                    old(self).addr_to_line@,
                                )
                            }
                        },
                        Some(e) => {
                            &&& final(self).halted && !final(self).running
                                && !final(self).step_mode
                            &&& final(self).error_msg matches Some(m) && m@ == step_error_text(e)
                            &&& final(self).status_msg@ == "Error: "@ + step_error_text(e)
                        },
                    }
                },
    {
        if self.halted {
            let mut status = String::new();
            push_str(&mut status, "Program halted");
            self.status_msg = status;
            return;
        }
        let ghost s0 = self.machine@;
        let ghost lines = self.addr_to_line@;
        let (result, hit) = run_machine(&mut self.machine, &self.breakpoints, &self.addr_to_line);
        let ghost s_end = self.machine@;
        self.collect_output();
        match result {
            None => {
                if self.machine.halted {
                    self.finish();
                } else if hit {
                    self.step_mode = true;
                    let mut status = String::new();
                    push_str(&mut status, "Breakpoint hit at line ");
                    match self.current_line() {
                        Some(l) => push_line_number(&mut status, l),
                        None => push_decimal(&mut status, 0),
                    }
                    push_str(&mut status, " (step mode: s=step r=run q=quit)");
                    assert(status@ =~= breakpoint_status(s_end.pc, lines));
                    self.status_msg = status;
                }
                self.error_msg = None;
            },
            Some(e) => {
                self.fail(e);
            },
        }
    }

    /// Sets a breakpoint on `line`, or removes the one there.
    pub fn toggle_breakpoint(&mut self, line: usize)
        requires
            line < usize::MAX,
        ensures
            toggled(old(self), final(self), line),
    {
        let mut status = String::new();
        if self.breakpoints.contains(&line) {
            self.breakpoints.remove(&line);
            push_str(&mut status, "Breakpoint removed at line ");
        } else {
            self.breakpoints.insert(line);
            push_str(&mut status, "Breakpoint set at line ");
        }
        push_line_number(&mut status, line);
        self.status_msg = status;
    }

    /// The general registers that are not zero, as (index, value), by index.
    pub fn nonzero_general_regs(&self) -> (v: Vec<(u8, u64)>)
        ensures
            v@ == nonzero_regs(self.machine.general@, 256),
    {
        let mut v: Vec<(u8, u64)> = Vec::new();
        let mut i: u16 = 0;
        proof {
            self.machine.general.lemma_len();
        }
        while i < 256
            invariant
                i <= 256,
                self.machine.general@.len() == 256,
                v@ == nonzero_regs(self.machine.general@, i as nat),
            decreases 256 - i,
        {
            let x = self.machine.general.get(i as u8);
            if x != 0 {
                v.push((i as u8, x));
            }
            i = i + 1;
        }
        v
    }

    /// Every special register as (name, value), in the order of
    /// [`SpecialRegister::ALL`].
    pub fn all_special_regs(&self) -> (v: Vec<(&'static str, u64)>)
        ensures
            v@.len() == 32,
            forall|i: int|
                0 <= i < 32 ==> #[trigger] v@[i] == (
                    spec_reg_name(spec_reg_at(i)),
                    self.machine.special.value(spec_reg_at(i)),
                ),
    {
        let mut v: Vec<(&'static str, u64)> = Vec::new();
        let mut i: usize = 0;
        while i < 32
            invariant
                i <= 32,
                v@.len() == i,
                forall|j: int|
                    0 <= j < i ==> #[trigger] v@[j] == (
                        spec_reg_name(spec_reg_at(j)),
                        self.machine.special.value(spec_reg_at(j)),
                    ),
            decreases 32 - i,
        {
            let r: SpecialRegister = reg_at(i);
            v.push((r.name(), self.machine.special.get(r)));
            i = i + 1;
        }
        v
    }

    /// Whether the machine stands on a line with a breakpoint.
    pub fn is_at_breakpoint(&self) -> (r: bool)
        ensures
            r == at_breakpoint(self.machine@, self.breakpoints@, self.addr_to_line@),
    {
        on_breakpoint(&self.machine, &self.breakpoints, &self.addr_to_line)
    }

    /// Ends a run because a key was pressed.
    pub fn interrupt(&mut self)
        ensures
            !final(self).running,
            final(self).status_msg@ == "Stopped"@,
            final(self).machine@ == old(self).machine@,
            final(self).output@ == old(self).output@,
            final(self).step_mode == old(self).step_mode,
            final(self).halted == old(self).halted,
            final(self).error_msg == old(self).error_msg,
            same_frame(final(self), old(self)),
    {
        self.running = false;
        let mut status = String::new();
        push_str(&mut status, "Stopped");
        self.status_msg = status;
    }

    /// Ends a run if the machine stands on a breakpoint, and says where.
    pub fn stop_at_breakpoint(&mut self) -> (hit: bool)
        requires
            at_breakpoint(old(self).machine@, old(self).breakpoints@, old(self).addr_to_line@)
                ==> old(self).addr_to_line@[old(self).machine.pc] < usize::MAX,
        ensures
            hit == at_breakpoint(old(self).machine@, old(self).breakpoints@, old(self).addr_to_line@),
            hit ==> !final(self).running && final(self).status_msg@ == "Breakpoint hit at line "@
                + decimal((old(self).addr_to_line@[old(self).machine.pc] + 1) as nat),
            !hit ==> final(self).running == old(self).running && final(self).status_msg@ == old(
                self,
            ).status_msg@,
            final(self).machine@ == old(self).machine@,
            final(self).output@ == old(self).output@,
            final(self).step_mode == old(self).step_mode,
            final(self).halted == old(self).halted,
            final(self).error_msg == old(self).error_msg,
            same_frame(final(self), old(self)),
    {
        if !self.is_at_breakpoint() {
            return false;
        }
        self.running = false;
        let line = match self.current_line() {
            Some(l) => l,
            None => 0,
        };
        let mut status = String::new();
        push_str(&mut status, "Breakpoint hit at line ");
        push_line_number(&mut status, line);
        self.status_msg = status;
        true
    }

    /// Acts on a key: in breakpoint input, digits build the line number,
    /// Enter toggles that breakpoint and Esc cancels; otherwise `q` quits,
    /// `s` (or `n`) steps, `r` runs, `b` asks for a breakpoint line, the arrows
    /// scroll the source and `j`/`k` the registers.
    pub fn handle_key(&mut self, key: Key) -> (r: Outcome)
        requires
            key_steps(old(self), key) && !old(self).halted ==> !step_overflows(old(self).machine@),
            key_steps(old(self), key) && !old(self).halted ==> lines_countable(old(self).addr_to_line@),
            old(self).input_mode == InputMode::Normal && key == Key::Down ==> old(self).code_scroll
                < usize::MAX,
        ensures
            key_effect(old(self), final(self), key),
            r == if old(self).input_mode == InputMode::Normal && key == Key::Char('q') {
                Outcome::Quit
            } else {
                Outcome::Continue
            },
    {
        match self.input_mode {
            InputMode::BreakpointInput => {
                match key {
                    Key::Enter => {
                        let text = chars_of(self.bp_input.as_str());
                        let t = trim_chars(text.as_slice());
                        assert(t@.skip(0) =~= t@);
                        match crate::parse::parse_unsigned_at(t.as_slice(), 0, 10, usize::MAX as u64) {
                            Ok(n) => {
                                if n > 0 && n <= self.source_lines.len() as u64 {
                                    self.toggle_breakpoint((n - 1) as usize);
                                } else {
                                    let mut status = String::new();
                                    push_str(&mut status, "Invalid line number: ");
                                    push_decimal(&mut status, n);
                                    self.status_msg = status;
                                }
                            },
                            Err(_) => {
                                let mut status = String::new();
                                push_str(&mut status, "Invalid input");
                                self.status_msg = status;
                            },
                        }
                        self.bp_input = String::new();
                        self.input_mode = InputMode::Normal;
                    },
                    Key::Esc => {
                        self.bp_input = String::new();
                        self.input_mode = InputMode::Normal;
                        let mut status = String::new();
                        push_str(&mut status, "Breakpoint cancelled");
                        self.status_msg = status;
                    },
                    Key::Backspace => {
                        pop_char(&mut self.bp_input);
                    },
                    Key::Char(c) => {
                        if '0' <= c && c <= '9' {
                            push_char(&mut self.bp_input, c);
                        }
                    },
                    _ => {},
                }
                Outcome::Continue
            },
            InputMode::Normal => {
                match key {
                    Key::Char('q') => {
                        return Outcome::Quit;
                    },
                    Key::Char('s') | Key::Char('n') => {
                        self.step();
                    },
                    Key::Char('r') => {
                        if !self.halted {
                            self.running = true;
                            let mut status = String::new();
                            push_str(&mut status, "Running... (press any key to stop)");
                            self.status_msg = status;
                        }
                    },
                    Key::Char('b') => {
                        self.input_mode = InputMode::BreakpointInput;
                        self.bp_input = String::new();
                        let mut status = String::new();
                        push_str(&mut status, "Enter line number for breakpoint:");
                        self.status_msg = status;
                    },
                    Key::Up => {
                        self.code_scroll = self.code_scroll.saturating_sub(1);
                    },
                    Key::Down => {
                        let last = self.source_lines.len().saturating_sub(1);
                        let next = self.code_scroll + 1;
                        self.code_scroll = if next < last {
                            next
                        } else {
                            last
                        };
                    },
                    Key::Char('j') => {
                        self.reg_scroll = self.reg_scroll.saturating_add(1);
                    },
                    Key::Char('k') => {
                        self.reg_scroll = self.reg_scroll.saturating_sub(1);
                    },
                    _ => {},
                }
                Outcome::Continue
            },
        }
    }

    /// The text of the status bar: the breakpoint prompt while a line number
    /// is typed, else the status line.
    pub fn status_line(&self) -> (t: String)
        ensures
            t@ == match self.input_mode {
                InputMode::BreakpointInput => "Breakpoint line: "@ + self.bp_input@
                    + "\u{2588}  (Enter=confirm, Esc=cancel)"@,
                InputMode::Normal => self.status_msg@,
            },
    {
        let mut t = String::new();
        match self.input_mode {
            InputMode::BreakpointInput => {
                push_str(&mut t, "Breakpoint line: ");
                push_str(&mut t, self.bp_input.as_str());
                push_str(&mut t, "\u{2588}  (Enter=confirm, Esc=cancel)");
            },
            InputMode::Normal => {
                push_str(&mut t, self.status_msg.as_str());
            },
        }
        assert(t@ =~= match self.input_mode {
            InputMode::BreakpointInput => "Breakpoint line: "@ + self.bp_input@
                + "\u{2588}  (Enter=confirm, Esc=cancel)"@,
            InputMode::Normal => self.status_msg@,
        });
        t
    }
}

/// The nonzero registers among the first `n`, as (index, value), by index.
pub open spec fn nonzero_regs(g: Seq<u64>, n: nat) -> Seq<(u8, u64)>
    decreases n,
{
    if n == 0 {
        Seq::empty()
    } else {
        let rest = nonzero_regs(g, (n - 1) as nat);
        if g[n - 1] != 0 {
            rest.push(((n - 1) as u8, g[n - 1]))
        } else {
            rest
        }
    }
}

/// The first source line shown in a window of `visible_height` lines: the
/// scroll position, moved so that the current line is in view.
pub fn code_view_start(current: Option<usize>, code_scroll: usize, visible_height: usize) -> (r: usize)
    requires
        current matches Some(c) && c >= code_scroll ==> code_scroll + visible_height <= usize::MAX,
    ensures
        r == match current {
            Some(c) => if c < code_scroll {
                c
            } else if c >= code_scroll + visible_height {
                if c >= visible_height / 2 {
                    (c - visible_height / 2) as usize
                } else {
                    0
                }
            } else {
                code_scroll
            },
            None => code_scroll,
        },
{
    match current {
        Some(c) => {
            if c < code_scroll {
                c
            } else if c >= code_scroll + visible_height {
                c.saturating_sub(visible_height / 2)
            } else {
                code_scroll
            }
        },
        None => code_scroll,
    }
}

} // verus!
