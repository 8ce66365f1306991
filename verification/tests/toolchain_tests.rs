use mmix::assembler::assemble;
use mmix::binary::{decode_mmb, encode_mmb, line_entries};
use mmix::debugger::{App, InputMode, Key, Outcome};
use mmix::encode::{is_mnemonic, lookup_mnemonic, InstrEntry};
use mmix::execute::StepError;
use mmix::machine::Machine;
use mmix::op;
use mmix::parse::{
    parse_number, parse_reg, parse_reg_or_imm, parse_special_reg, parse_string_literal,
    resolve_label_or_number, SymbolTable,
};
use mmix::SpecialRegister;
use mmix::RawInst;

fn chars(s: &str) -> Vec<char> {
    s.chars().collect()
}

fn word_at(bytes: &[u8], i: usize) -> u32 {
    u32::from_be_bytes([bytes[i], bytes[i + 1], bytes[i + 2], bytes[i + 3]])
}

// ─── Operand parsing ───

#[test]
fn number_formats() {
    assert_eq!(parse_number(&chars(" 42 ")).unwrap(), 42);
    assert_eq!(parse_number(&chars("#ff")).unwrap(), 255);
    assert_eq!(parse_number(&chars("0X10")).unwrap(), 16);
    assert_eq!(parse_number(&chars("-1")).unwrap(), u64::MAX);
    assert_eq!(parse_number(&chars("-9223372036854775808")).unwrap(), 0x8000_0000_0000_0000);
    assert_eq!(parse_number(&chars("+7")).unwrap(), 7);
}

#[test]
fn number_errors_name_the_text() {
    assert_eq!(
        parse_number(&chars("12a")).unwrap_err(),
        "invalid number '12a': invalid digit found in string"
    );
    assert_eq!(
        parse_number(&chars("0x")).unwrap_err(),
        "invalid hex '0x': cannot parse integer from empty string"
    );
    assert_eq!(
        parse_number(&chars("18446744073709551616")).unwrap_err(),
        "invalid number '18446744073709551616': number too large to fit in target type"
    );
    assert_eq!(
        parse_number(&chars("-9223372036854775809")).unwrap_err(),
        "invalid number '-9223372036854775809': number too small to fit in target type"
    );
}

#[test]
fn registers_and_immediates() {
    assert_eq!(parse_reg(&chars(" $255")).unwrap(), 255);
    assert_eq!(parse_reg(&chars("$256")).unwrap_err(), "invalid register '$256'");
    assert_eq!(parse_reg(&chars("r1")).unwrap_err(), "expected register (e.g. $0), got 'r1'");
    assert_eq!(parse_reg_or_imm(&chars("$3")).unwrap(), (3, false));
    assert_eq!(parse_reg_or_imm(&chars("200")).unwrap(), (200, true));
    assert_eq!(parse_reg_or_imm(&chars("300")).unwrap_err(), "immediate 300 out of range 0..255");
}

#[test]
fn special_register_names() {
    assert_eq!(parse_special_reg(&chars("rA")).unwrap(), 21);
    assert_eq!(parse_special_reg(&chars(" RZZ ")).unwrap(), 31);
    assert_eq!(parse_special_reg(&chars("7")).unwrap(), 7);
    assert_eq!(parse_special_reg(&chars("rQx")).unwrap_err(), "unknown special register 'rqx'");
}

#[test]
fn string_literals_and_escapes() {
    assert_eq!(parse_string_literal(&chars("\"a\\tb\"")).unwrap(), chars("a\tb"));
    assert_eq!(parse_string_literal(&chars("\"a\\qb\"")).unwrap(), chars("a\\qb"));
    assert_eq!(parse_string_literal(&chars("\"ab")).unwrap_err(), "unterminated string literal");
    assert_eq!(parse_string_literal(&chars("ab")).unwrap_err(), "expected string literal");
    assert_eq!(parse_string_literal(&chars("\"a\\\"")).unwrap_err(), "trailing backslash");
}

#[test]
fn symbols_resolve_with_the_latest_value() {
    let mut t = SymbolTable::new();
    t.insert(chars("X"), 1);
    t.insert(chars("X"), 2);
    assert_eq!(t.get(&chars("X")), Some(2));
    assert!(!t.contains_key(&chars("Y")));
    assert_eq!(resolve_label_or_number(&chars(" X "), &t, 0).unwrap(), 2);
    assert_eq!(resolve_label_or_number(&chars("@"), &t, 40).unwrap(), 40);
    assert_eq!(resolve_label_or_number(&chars("Y"), &t, 0).unwrap_err(), "undefined label 'Y'");
    assert_eq!(
        resolve_label_or_number(&chars("$1"), &t, 0).unwrap_err(),
        "invalid number '$1': invalid digit found in string"
    );
}

// ─── Mnemonics ───

#[test]
fn mnemonic_table() {
    assert_eq!(
        lookup_mnemonic(&chars("ADD")),
        Some(InstrEntry::Real { base_op: op::ADD, format: mmix::OperandFormat::ThreeReg })
    );
    // The immediate twin of an auto-suffixed pair has no mnemonic of its own.
    assert_eq!(lookup_mnemonic(&chars("ADDI")), None);
    assert!(is_mnemonic(&chars("ADDI")));
    assert!(is_mnemonic(&chars("OCTA")));
    assert!(is_mnemonic(&chars("LOC")));
    assert!(!is_mnemonic(&chars("Main")));
}

// ─── Assembling ───

#[test]
fn assemble_error_cases() {
    let e = assemble("Text_Segment SETL $1,1").unwrap_err();
    assert_eq!(e.message, "'Text_Segment' is a reserved segment symbol and cannot be redefined");
    let e = assemble("        BYTE").unwrap_err();
    assert_eq!(e.message, "data directive requires arguments");
    let e = assemble("        LOC #100\n        SETL $1,1\n        LOC #100").unwrap_err();
    assert_eq!(e.line, 2);
    assert_eq!(e.message, "LOC 0x100 is before current position in segment (0x104)");
    let e = assemble("        LOC #40004\n        BZ $0,0").unwrap_err();
    assert_eq!(e.message, "relative address out of range");
    let e = assemble("Start   NOP").unwrap_err();
    assert_eq!(e.message, "unknown instruction 'NOP'");
    assert_eq!(e.to_string(), "line 1: unknown instruction 'NOP'");
    let e = assemble("        JMP").unwrap_err();
    assert_eq!(e.message, "expected 1 operand, got 0");
    let e = assemble("        SWYM 1,2").unwrap_err();
    assert_eq!(e.message, "too many operands for special instruction");
}

#[test]
fn assemble_segments_and_entry() {
    let src = "        LOC #100\nMain    SETL $1,1\n        LOC Data_Segment\nData    OCTA 5\n        LOC #108\n        TRAP 0,0,0";
    let r = assemble(src).unwrap();
    assert_eq!(r.entry_addr, 0x100);
    assert_eq!(r.segments.len(), 2);
    assert_eq!(r.segments[0].base, 0x100);
    assert_eq!(r.segments[1].base, 0x2000_0000_0000_0000);
    assert_eq!(r.segments[1].bytes, vec![0, 0, 0, 0, 0, 0, 0, 5]);
    // Back in the text segment, with a gap of zeros up to #108.
    assert_eq!(r.bytes.len(), 12);
    assert_eq!(word_at(&r.bytes, 0), ((op::SETL as u32) << 24) | (1 << 16) | 1);
    assert_eq!(word_at(&r.bytes, 4), 0);
    assert_eq!(word_at(&r.bytes, 8), (op::TRAP as u32) << 24);
    assert_eq!(r.line_to_offset[&5], 0x108);
    assert_eq!(r.offset_to_line[&0x2000_0000_0000_0000], 3);
}

#[test]
fn assemble_utf8_string_and_padding() {
    let r = assemble("        WYDE \"é\"\n        TETRA \"ab\"").unwrap();
    assert_eq!(r.bytes, vec![0xC3, 0xA9, b'a', b'b', 0, 0]);
}

#[test]
fn assemble_backward_jump_and_special_forms() {
    let r = assemble("Top     SWYM\n        JMP Top\n        SAVE $3\n        UNSAVE 7\n        POP 1,2\n        GET $0,rJ\n        TRAP 1,-1,300").unwrap();
    assert_eq!(word_at(&r.bytes, 0), (op::SWYM as u32) << 24);
    assert_eq!(word_at(&r.bytes, 4), ((op::JMPB as u32) << 24) | 0xFF_FFFF);
    assert_eq!(word_at(&r.bytes, 8), ((op::SAVE as u32) << 24) | (3 << 16));
    assert_eq!(word_at(&r.bytes, 12), ((op::UNSAVE as u32) << 24) | 7);
    assert_eq!(word_at(&r.bytes, 16), ((op::POP as u32) << 24) | (1 << 16) | 2);
    assert_eq!(word_at(&r.bytes, 20), ((op::GET as u32) << 24) | 4);
    assert_eq!(word_at(&r.bytes, 24), ((op::TRAP as u32) << 24) | (1 << 16) | (0xFF << 8) | 44);
}

#[test]
fn assembled_words_decode_to_their_fields() {
    let r = assemble("        ADD $7,$8,9").unwrap();
    let inst = RawInst::decode(word_at(&r.bytes, 0));
    assert_eq!((inst.op, inst.x, inst.y, inst.z), (op::ADDI, 7, 8, 9));
}

// ─── Program images ───

#[test]
fn image_round_trip() {
    let src = "        SETL $1,1 % one\n        TRAP 0,0,0\nLast    BYTE \"ü\"";
    let r = assemble(src).unwrap();
    let entries = line_entries(&r.line_to_offset, src.lines().count());
    assert_eq!(entries, vec![(0, 0), (1, 4), (2, 8)]);
    let image = encode_mmb(r.entry_addr, &r.bytes, &entries, src, "prog.mms");
    assert_eq!(&image[0..8], b"MMIXBIN\0");
    let (entry, code, dbg) = decode_mmb(&image).unwrap();
    assert_eq!(entry, r.entry_addr);
    assert_eq!(code, r.bytes);
    let dbg = dbg.unwrap();
    assert_eq!(dbg.line_to_offset, r.line_to_offset);
    assert_eq!(dbg.offset_to_line, r.offset_to_line);
    assert_eq!(dbg.source_file, "prog.mms");
    assert_eq!(dbg.source_lines, src.lines().map(|l| l.to_string()).collect::<Vec<_>>());
}

#[test]
fn image_errors() {
    assert_eq!(decode_mmb(&[0; 23]).unwrap_err().message, "file too short for header");
    assert_eq!(decode_mmb(&[0; 24]).unwrap_err().message, "invalid magic: not a .mmb file");
    let mut img = b"MMIXBIN\0".to_vec();
    img.extend_from_slice(&0u64.to_be_bytes());
    img.extend_from_slice(&5u64.to_be_bytes());
    img.extend_from_slice(&[1, 2]);
    assert_eq!(decode_mmb(&img).unwrap_err().message, "file truncated: code section incomplete");
    img.extend_from_slice(&[3, 4, 5]);
    let (_, code, dbg) = decode_mmb(&img).unwrap();
    assert_eq!(code, vec![1, 2, 3, 4, 5]);
    assert!(dbg.is_none());
    img.extend_from_slice(b"MMIXDBG\0");
    img.extend_from_slice(&1u32.to_be_bytes());
    assert_eq!(decode_mmb(&img).unwrap_err().message, "unexpected end of debug section");
    let mut bad = b"MMIXBIN\0".to_vec();
    bad.extend_from_slice(&[0; 16]);
    bad.extend_from_slice(b"MMIXDBG\0");
    bad.extend_from_slice(&0u32.to_be_bytes());
    bad.extend_from_slice(&1u32.to_be_bytes());
    bad.push(0xFF);
    let m = decode_mmb(&bad).unwrap_err().message;
    assert!(m.starts_with("invalid UTF-8 in source file name: "));
}

// ─── The machine and the debugger ───

#[test]
fn step_error_texts() {
    assert_eq!(StepError::Halted.message(), "Machine halted");
    assert_eq!(StepError::InvalidGet(40).message(), "GET: invalid special register 40");
    assert_eq!(StepError::InvalidPut(33).message(), "PUT: invalid special register 33");
    assert_eq!(StepError::UnimplementedTrap(1, 2, 3).message(), "Unimplemented TRAP 1,2,3");
    assert_eq!(
        StepError::UnimplementedOpcode { op: 0x0A, pc: 0x100 }.message(),
        "Unimplemented opcode: 0x0a at PC=0x100"
    );
}

fn run_one(m: &mut Machine, inst: RawInst) {
    m.memory.write_u32(0, inst.encode());
    m.set_entry(0);
    assert!(!m.would_overflow());
    m.step().unwrap();
}

#[test]
fn division_of_the_most_negative_word_by_minus_one() {
    let mut m = Machine::new();
    m.general.set(1, 0x8000_0000_0000_0000);
    m.general.set(2, u64::MAX);
    run_one(&mut m, RawInst { op: op::DIV, x: 3, y: 1, z: 2 });
    assert_eq!(m.general.get(3), 0x8000_0000_0000_0000);
    assert_eq!(m.special.get(SpecialRegister::Rr), 0);
}

#[test]
fn signed_division_rounds_down() {
    let mut m = Machine::new();
    m.general.set(1, (-7i64) as u64);
    run_one(&mut m, RawInst { op: op::DIVI, x: 0, y: 1, z: 2 });
    assert_eq!(m.general.get(0) as i64, -4);
    assert_eq!(m.special.get(SpecialRegister::Rr) as i64, 1);
    let mut m = Machine::new();
    m.general.set(1, 7);
    m.general.set(2, (-2i64) as u64);
    run_one(&mut m, RawInst { op: op::DIV, x: 0, y: 1, z: 2 });
    assert_eq!(m.general.get(0) as i64, -4);
    assert_eq!(m.special.get(SpecialRegister::Rr) as i64, -1);
    let mut m = Machine::new();
    m.general.set(1, (-7i64) as u64);
    m.general.set(2, (-2i64) as u64);
    run_one(&mut m, RawInst { op: op::DIV, x: 0, y: 1, z: 2 });
    assert_eq!(m.general.get(0), 3);
    assert_eq!(m.special.get(SpecialRegister::Rr) as i64, -1);
}

#[test]
fn unsigned_division_takes_rd_as_high_word() {
    let mut m = Machine::new();
    m.special.set(SpecialRegister::Rd, 0);
    m.special.set(SpecialRegister::Rh, 5);
    m.general.set(1, 42);
    m.general.set(2, 5);
    run_one(&mut m, RawInst { op: op::DIVU, x: 0, y: 1, z: 2 });
    assert_eq!(m.general.get(0), 8);
    assert_eq!(m.special.get(SpecialRegister::Rr), 2);
    let mut m = Machine::new();
    m.special.set(SpecialRegister::Rd, 1);
    m.general.set(1, 0);
    m.general.set(2, 2);
    run_one(&mut m, RawInst { op: op::DIVU, x: 0, y: 1, z: 2 });
    assert_eq!(m.general.get(0), 0x8000_0000_0000_0000);
    assert_eq!(m.special.get(SpecialRegister::Rr), 0);
    let mut m = Machine::new();
    m.special.set(SpecialRegister::Rd, 7);
    m.general.set(1, 42);
    m.general.set(2, 5);
    run_one(&mut m, RawInst { op: op::DIVU, x: 0, y: 1, z: 2 });
    assert_eq!(m.general.get(0), 7);
    assert_eq!(m.special.get(SpecialRegister::Rr), 42);
}

#[test]
fn shifts_of_sixty_four_or_more() {
    let cases: [(u8, u64, u8, u64); 6] = [
        (op::SLI, 1, 64, 0),
        (op::SLUI, 1, 64, 0),
        (op::SRUI, u64::MAX, 64, 0),
        (op::SRI, 0x7FFF_FFFF_FFFF_FFFF, 64, 0),
        (op::SRI, 0x8000_0000_0000_0000, 200, u64::MAX),
        (op::SRI, 0x8000_0000_0000_0000, 63, u64::MAX),
    ];
    for (o, a, b, want) in cases {
        let mut m = Machine::new();
        m.general.set(1, a);
        run_one(&mut m, RawInst { op: o, x: 0, y: 1, z: b });
        assert_eq!(m.general.get(0), want);
    }
    let mut m = Machine::new();
    m.general.set(1, 3);
    m.general.set(2, 1 << 40);
    run_one(&mut m, RawInst { op: op::SL, x: 0, y: 1, z: 2 });
    assert_eq!(m.general.get(0), 0);
}

#[test]
fn jumps_use_the_whole_xyz_field() {
    let mut m = Machine::new();
    run_one(&mut m, RawInst { op: op::JMP, x: 1, y: 0, z: 1 });
    assert_eq!(m.pc, 4 * 0x10001);
    let mut m = Machine::new();
    m.memory.write_u32(0x100, RawInst { op: op::JMPB, x: 0xFF, y: 0xFF, z: 0xFF }.encode());
    m.set_entry(0x100);
    m.step().unwrap();
    assert_eq!(m.pc, 0xFC);
    let r = assemble("        LOC #100\n        JMP Far\n        LOC #40100\nFar     TRAP 0,0,0").unwrap();
    assert_eq!(r.entry_addr, 0x100);
    assert_eq!(word_at(&r.segments[0].bytes, 0), ((op::JMP as u32) << 24) | 0x01_0000);
    let mut m = Machine::new();
    m.load_raw(0x100, &r.segments[0].bytes);
    m.set_entry(0x100);
    m.step().unwrap();
    assert_eq!(m.pc, 0x40100);
}

fn debugger(src: &str) -> App {
    let r = assemble(src).unwrap();
    let entries = line_entries(&r.line_to_offset, src.lines().count());
    let image = encode_mmb(r.entry_addr, &r.bytes, &entries, src, "t.mms");
    let (entry, code, dbg) = decode_mmb(&image).unwrap();
    App::from_binary(entry, &code, dbg.unwrap())
}

#[test]
fn keys_drive_the_debugger() {
    let mut app = debugger("        SETL $1,5\n        SETL $2,6\n        TRAP 0,0,0");
    assert_eq!(app.status_msg, "Ready. s=step r=run b=breakpoint q=quit");
    assert_eq!(app.handle_key(Key::Char('s')), Outcome::Continue);
    assert_eq!(app.status_msg, "PC=0x4 line 2");
    assert_eq!(app.handle_key(Key::Char('b')), Outcome::Continue);
    assert_eq!(app.input_mode, InputMode::BreakpointInput);
    app.handle_key(Key::Char('3'));
    app.handle_key(Key::Char('x'));
    app.handle_key(Key::Char('1'));
    app.handle_key(Key::Backspace);
    assert_eq!(app.bp_input, "3");
    app.handle_key(Key::Enter);
    assert_eq!(app.input_mode, InputMode::Normal);
    assert!(app.breakpoints.contains(&2));
    assert_eq!(app.status_msg, "Breakpoint set at line 3");
    app.handle_key(Key::Char('b'));
    app.handle_key(Key::Char('9'));
    app.handle_key(Key::Enter);
    assert_eq!(app.status_msg, "Invalid line number: 9");
    app.handle_key(Key::Char('b'));
    app.handle_key(Key::Enter);
    assert_eq!(app.status_msg, "Invalid input");
    app.handle_key(Key::Char('b'));
    app.handle_key(Key::Esc);
    assert_eq!(app.status_msg, "Breakpoint cancelled");
    app.handle_key(Key::Down);
    app.handle_key(Key::Down);
    app.handle_key(Key::Down);
    assert_eq!(app.code_scroll, 2);
    app.handle_key(Key::Up);
    assert_eq!(app.code_scroll, 1);
    app.handle_key(Key::Char('k'));
    assert_eq!(app.reg_scroll, 0);
    app.handle_key(Key::Char('j'));
    assert_eq!(app.reg_scroll, 1);
    app.handle_key(Key::Char('r'));
    assert!(app.running);
    assert_eq!(app.status_msg, "Running... (press any key to stop)");
    app.step();
    assert!(app.stop_at_breakpoint());
    assert!(!app.running);
    assert_eq!(app.status_msg, "Breakpoint hit at line 3");
    app.interrupt();
    assert_eq!(app.status_msg, "Stopped");
    assert_eq!(app.handle_key(Key::Char('q')), Outcome::Quit);
}

#[test]
fn stepping_into_an_error_stops_the_debugger() {
    let mut app = debugger("        TRAP 1,2,3");
    app.step();
    assert!(app.halted);
    assert_eq!(app.error_msg.as_deref(), Some("Unimplemented TRAP 1,2,3"));
    assert_eq!(app.status_msg, "Error: Unimplemented TRAP 1,2,3");
}

#[test]
fn register_listings() {
    let mut app = debugger("        SETL $3,7\n        PUT rJ,9\n        TRAP 0,0,0");
    app.step();
    app.step();
    assert_eq!(app.nonzero_general_regs(), vec![(3, 7)]);
    let specials = app.all_special_regs();
    assert_eq!(specials.len(), 32);
    assert_eq!(specials[0], ("ra", 0));
    assert!(specials.iter().any(|&(n, v)| n == "rj" && v == 9));
}

#[test]
fn run_continuous_reports_errors() {
    let mut app = debugger("        SETL $1,1\n        GET $2,40");
    app.run_continuous();
    assert!(app.halted);
    assert_eq!(app.status_msg, "Error: GET: invalid special register 40");
    app.run_continuous();
    assert_eq!(app.status_msg, "Program halted");
}

#[test]
fn line_and_address_maps_agree() {
    let src = "        SETL $1,1\nA       BYTE \"\"\nB       BYTE 7\n        TRAP 0,0,0";
    let r = assemble(src).unwrap();
    for (&off, &line) in r.offset_to_line.iter() {
        assert_eq!(r.line_to_offset[&line], off);
    }
    for (&line, &off) in r.line_to_offset.iter() {
        assert!(line < src.lines().count());
        assert!(r.offset_to_line.contains_key(&off));
    }
    // The empty datum and the byte after it share an address; the map from
    // addresses keeps the later line.
    assert_eq!(r.line_to_offset[&1], 4);
    assert_eq!(r.line_to_offset[&2], 4);
    assert_eq!(r.offset_to_line[&4], 2);
}

#[test]
fn data_operands_after_a_string() {
    let r = assemble("String  BYTE    \"Hello, World!\",#a,0").unwrap();
    let mut want = b"Hello, World!".to_vec();
    want.push(0x0A);
    want.push(0);
    assert_eq!(r.bytes, want);
    let r = assemble("        WYDE \"AB\",1\n        BYTE \"a,b\" , 2").unwrap();
    assert_eq!(r.bytes, vec![0x41, 0x42, 0x00, 0x01, b'a', b',', b'b', 2]);
    let r = assemble("        TETRA \"A\",2\nAfter   BYTE 3").unwrap();
    assert_eq!(r.bytes, vec![0x41, 0, 0, 0, 0, 0, 0, 2, 3]);
    assert_eq!(r.line_to_offset[&1], 8);
    let e = assemble("        BYTE 1,\"open").unwrap_err();
    assert_eq!(e.to_string(), "line 1: unterminated string literal");
}

#[test]
fn hello_program_prints_its_line() {
    let src = "        GETA    $255,String\n        TRAP    0,1,1\n        SET     $2,3\n        SET     $3,4\n        ADD     $4,$2,$3\n        SET     $10,5\nLoop    SUB     $10,$10,1\n        BNZ     $10,Loop\n        TRAP    0,0,0\nString  BYTE    \"Hello, World!\",#a,0";
    let r = assemble(src).unwrap();
    let mut m = Machine::new();
    m.load_raw(r.entry_addr, &r.bytes);
    m.set_entry(r.entry_addr);
    m.run().unwrap();
    assert!(m.halted);
    assert_eq!(m.output_buffer, b"Hello, World!\n".to_vec());
    assert_eq!(m.general.get(4), 7);
}
