use mmix::{name, op, timing, Timing};

#[test]
fn instruction_opcode_constants_no_overlap() {
    // Verify a sampling of opcode constants are distinct
    let ops = [
        op::ADD,
        op::SUB,
        op::MUL,
        op::DIV,
        op::CMP,
        op::NEG,
        op::AND,
        op::OR,
        op::XOR,
        op::SL,
        op::SR,
        op::SRU,
        op::LDB,
        op::LDO,
        op::STB,
        op::STO,
        op::SETH,
        op::SETL,
        op::BZ,
        op::JMP,
        op::GO,
        op::GET,
        op::PUT,
        op::TRAP,
        op::TRIP,
    ];
    for i in 0..ops.len() {
        for j in (i + 1)..ops.len() {
            assert_ne!(ops[i], ops[j], "opcode conflict at index {} and {}", i, j);
        }
    }
}

#[test]
fn instruction_opcode_values_from_position() {
    // Opcodes are derived from table position, verify key values
    assert_eq!(op::TRAP, 0x00);
    assert_eq!(op::MUL, 0x18);
    assert_eq!(op::MULI, 0x19);
    assert_eq!(op::DIV, 0x1C);
    assert_eq!(op::ADD, 0x20);
    assert_eq!(op::ADDI, 0x21);
    assert_eq!(op::SUB, 0x24);
    assert_eq!(op::BN, 0x40);
    assert_eq!(op::BZ, 0x42);
    assert_eq!(op::BP, 0x44);
    assert_eq!(op::BNN, 0x48);
    assert_eq!(op::BNZ, 0x4A);
    assert_eq!(op::LDB, 0x80);
    assert_eq!(op::GO, 0x9E);
    assert_eq!(op::STB, 0xA0);
    assert_eq!(op::OR, 0xC0);
    assert_eq!(op::AND, 0xC8);
    assert_eq!(op::XOR, 0xC6);
    assert_eq!(op::SETH, 0xE0);
    assert_eq!(op::JMP, 0xF0);
    assert_eq!(op::GET, 0xFE);
    assert_eq!(op::TRIP, 0xFF);
}

#[test]
fn instruction_name_table_entries() {
    assert_eq!(name(op::TRAP), "TRAP");
    assert_eq!(name(op::ADD), "ADD");
    assert_eq!(name(op::ADDI), "ADDI");
    assert_eq!(name(op::_2ADDU), "2ADDU");
    assert_eq!(name(op::_16ADDUI), "16ADDUI");
    assert_eq!(name(op::LDB), "LDB");
    assert_eq!(name(op::GET), "GET");
    assert_eq!(name(op::TRIP), "TRIP");
}

#[test]
fn instruction_timing_table_entries() {
    assert_eq!(timing(op::ADD), Timing::new(1, 0));
    assert_eq!(timing(op::MUL), Timing::new(10, 0));
    assert_eq!(timing(op::DIV), Timing::new(60, 0));
    assert_eq!(timing(op::LDB), Timing::new(1, 1));
    assert_eq!(timing(op::TRAP), Timing::new(5, 0));
    assert_eq!(timing(op::SAVE), Timing::new(1, 20));
}
