use mmix::assembler::assemble;
use mmix::binary::DebugInfo;
use mmix::debugger::{App, InputMode};

fn make_app(src: &str) -> App {
    let asm_result = assemble(src).unwrap();
    let debug_info = DebugInfo {
        line_to_offset: asm_result.line_to_offset.clone(),
        offset_to_line: asm_result.offset_to_line.clone(),
        source_file: String::new(),
        source_lines: src.lines().map(|s| s.to_string()).collect(),
    };
    App::from_binary(asm_result.entry_addr, &asm_result.bytes, debug_info)
}

#[test]
fn new_app_initial_state() {
    let app = make_app("        TRAP 0,0,0");
    assert!(!app.halted);
    assert!(!app.running);
    assert!(!app.step_mode);
    assert_eq!(app.output, "");
    assert_eq!(app.breakpoints.len(), 0);
    assert_eq!(app.input_mode, InputMode::Normal);
    assert_eq!(app.machine.pc - if app.halted { 4 } else { 0 }, 0);
}

#[test]
fn step_halts_on_trap_0() {
    let mut app = make_app("        TRAP 0,0,0");
    app.step();
    assert!(app.halted);
}

#[test]
fn step_after_halt() {
    let mut app = make_app("        TRAP 0,0,0");
    app.step();
    assert!(app.halted);
    app.step();
    assert_eq!(app.status_msg, "Program halted");
}

#[test]
fn step_advances_pc() {
    let src = "        SETL $1,42\n        TRAP 0,0,0";
    let mut app = make_app(src);
    assert_eq!(app.current_line(), Some(0));
    app.step();
    assert_eq!(app.current_line(), Some(1));
}

#[test]
fn step_executes_setl() {
    let mut app = make_app("        SETL $1,42\n        TRAP 0,0,0");
    app.step();
    assert_eq!(app.machine.general.get(1), 42);
}

#[test]
fn step_add_computation() {
    let src = "\
    SETL $1,3\n\
    SETL $2,4\n\
    ADD  $3,$1,$2\n\
    TRAP 0,0,0";
    let mut app = make_app(src);
    app.step(); // SETL $1,3
    app.step(); // SETL $2,4
    app.step(); // ADD $3,$1,$2
    assert_eq!(app.machine.general.get(3), 7);
}

#[test]
fn toggle_breakpoint() {
    let mut app = make_app("        SETL $1,1\n        TRAP 0,0,0");
    app.toggle_breakpoint(0);
    assert!(app.breakpoints.contains(&0));
    app.toggle_breakpoint(0);
    assert!(!app.breakpoints.contains(&0));
}

#[test]
fn source_lines() {
    let src = "        SETL $1,1\n        TRAP 0,0,0";
    let app = make_app(src);
    assert_eq!(app.source_lines.len(), 2);
    assert_eq!(app.source_lines[0].trim(), "SETL $1,1");
}

#[test]
fn nonzero_general_regs() {
    let src = "        SETL $5,100\n        TRAP 0,0,0";
    let mut app = make_app(src);
    app.step();
    let regs = app.nonzero_general_regs();
    assert!(regs.iter().any(|&(i, v)| i == 5 && v == 100));
}

#[test]
fn loop_program_runs_to_completion() {
    let src = "\
    SETL    $10,5\n\
Loop    SUB     $10,$10,1\n\
    BNZ     $10,Loop\n\
    TRAP    0,0,0";
    let mut app = make_app(src);
    // Run until halted (max 100 steps as safety)
    for _ in 0..100 {
        if app.halted { break; }
        app.step();
    }
    assert!(app.halted);
    assert_eq!(app.machine.general.get(10), 0);
}

#[test]
fn trap_fputs_collects_output() {
    let src = "\
    GETA    $255,String\n\
    TRAP    0,1,1\n\
    TRAP    0,0,0\n\
String  BYTE    \"Hi\",0";
    let mut app = make_app(src);
    app.step(); // GETA
    app.step(); // TRAP 0,1,1 (Fputs)
    assert!(app.output.contains("Hi"));
}

#[test]
fn step_halts_resets_running_and_step_mode() {
    let mut app = make_app("        TRAP 0,0,0");
    app.running = true;
    app.step_mode = true;
    app.step();
    assert!(app.halted);
    assert!(!app.running);
    assert!(!app.step_mode);
}

#[test]
fn run_continuous_to_halt() {
    let src = "        SETL $1,42\n        TRAP 0,0,0";
    let mut app = make_app(src);
    app.running = true;
    app.run_continuous();
    assert!(app.halted);
    assert!(!app.running);
    assert!(!app.step_mode);
    assert_eq!(app.machine.general.get(1), 42);
}

#[test]
fn run_continuous_stops_at_breakpoint() {
    let src = "        SETL $1,1\n        SETL $2,2\n        TRAP 0,0,0";
    let mut app = make_app(src);
    app.running = true;
    app.toggle_breakpoint(1); // breakpoint at line 1 (SETL $2,2)
    app.run_continuous();
    assert!(!app.halted);
    assert!(app.running); // still running
    assert!(app.step_mode); // switched to step mode
    assert_eq!(app.current_line(), Some(1)); // stopped at breakpoint line
}
