use bytecode_compiler::compiler::Bytecode;
use bytecode_compiler::disassembly::disassemble;
use bytecode_compiler::opcode::{make, Instructions, Opcode};

fn stream(instructions: Vec<Instructions>) -> Instructions {
    let mut bytes = Vec::new();
    for instruction in instructions {
        bytes.extend(instruction.0);
    }
    Instructions(bytes)
}

#[test]
fn lists_one_line_for_each_instruction() {
    let code = stream(vec![
        make(Opcode::OpConst, &vec![1]),
        make(Opcode::OpConst, &vec![65534]),
        make(Opcode::OpAdd, &vec![]),
        make(Opcode::OpPop, &vec![]),
    ]);
    assert_eq!(
        disassemble(&code).unwrap(),
        "0000 OpConst 1\n0003 OpConst 65534\n0006 OpAdd\n0007 OpPop\n"
    );
}

#[test]
fn lists_jumps_with_their_targets() {
    let code = stream(vec![
        make(Opcode::OpTrue, &vec![]),
        make(Opcode::OpJumpNotTruthy, &vec![10]),
        make(Opcode::OpFalse, &vec![]),
        make(Opcode::OpJump, &vec![10]),
        make(Opcode::OpBang, &vec![]),
    ]);
    assert_eq!(
        disassemble(&code).unwrap(),
        "0000 OpTrue\n0001 OpJumpNotTruthy 10\n0004 OpFalse\n0005 OpJump 10\n0008 OpBang\n"
    );
}

#[test]
fn lists_nothing_for_an_empty_stream() {
    assert_eq!(disassemble(&Instructions(vec![])).unwrap(), "");
}

#[test]
fn offsets_are_at_least_four_digits_wide() {
    let mut instructions = Vec::new();
    for _ in 0..10001 {
        instructions.push(make(Opcode::OpPop, &vec![]));
    }
    let text = disassemble(&stream(instructions)).unwrap();
    let lines: Vec<&str> = text.lines().collect();
    assert_eq!(lines.len(), 10001);
    assert_eq!(lines[0], "0000 OpPop");
    assert_eq!(lines[9], "0009 OpPop");
    assert_eq!(lines[10], "0010 OpPop");
    assert_eq!(lines[99], "0099 OpPop");
    assert_eq!(lines[100], "0100 OpPop");
    assert_eq!(lines[999], "0999 OpPop");
    assert_eq!(lines[1000], "1000 OpPop");
    assert_eq!(lines[10000], "10000 OpPop");
}

#[test]
fn no_text_for_an_unknown_opcode() {
    assert_eq!(disassemble(&Instructions(vec![1, 15])), None);
    assert_eq!(disassemble(&Instructions(vec![255])), None);
}

#[test]
fn no_text_for_an_instruction_cut_short() {
    assert_eq!(disassemble(&Instructions(vec![0])), None);
    assert_eq!(disassemble(&Instructions(vec![0, 0])), None);
    assert_eq!(disassemble(&Instructions(vec![1, 13, 0])), None);
    assert!(disassemble(&Instructions(vec![0, 0, 0])).is_some());
}

#[test]
fn bytecode_disassembles_its_instructions() {
    let bytecode = Bytecode {
        instructions: stream(vec![make(Opcode::OpTrue, &vec![]), make(Opcode::OpPop, &vec![])]),
        constants: vec![],
    };
    assert_eq!(bytecode.disassemble().unwrap(), "0000 OpTrue\n0001 OpPop\n");
}
