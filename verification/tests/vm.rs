use raion::vm::address::Address;
use raion::vm::argument_memory::ArgumentMemory;
use raion::vm::compiler::{ASMCompiler, CompilerError};
use raion::vm::lexer::{Lexer, LexerError};
use raion::vm::registers::Register;
use raion::vm::token::{ASMToken, InstructionType, RegisterType};

fn assemble(source: &str) -> Result<Vec<u8>, CompilerError> {
    let tokens = match Lexer::new(source).tokenize_asm() {
        Ok(t) => t,
        Err(LexerError::InvalidToken(text)) => panic!("invalid token {text}"),
    };
    ASMCompiler::new(tokens).compile()
}

#[test]
fn sub_register_write_keeps_high_bits() {
    let mut r = Register::new();
    r.set_a64(0x1122_3344_5566_7788);
    r.set_a8(0xff);
    assert_eq!(r.get_a64(), 0x1122_3344_5566_77ff);
    r.set_a16(0xabcd);
    assert_eq!(r.get_a64(), 0x1122_3344_5566_abcd);
    r.set_a32(0x0102_0304);
    assert_eq!(r.get_a64(), 0x1122_3344_0102_0304);
    assert_eq!(r.get_a16(), 0x0304);
    assert_eq!(r.get_a8(), 0x04);
}

#[test]
fn sub_register_read_gives_last_write() {
    let mut r = Register::new();
    r.set_b64(u64::MAX);
    r.set_b16(0x1234);
    assert_eq!(r.get_b16(), 0x1234);
    r.set_c32(7);
    r.set_c32(9);
    assert_eq!(r.get_c32(), 9);
    r.set_d8(3);
    assert_eq!(r.get_d8(), 3);
    assert_eq!(r.get_d64(), 3);
}

#[test]
fn instruction_pointer_moves() {
    let mut r = Register::new();
    r.set_ip(Address::new(10));
    let after = r.inc_ip(5);
    assert_eq!(after.get_raw(), 15);
    assert_eq!(r.get_ip().get_raw(), 15);
}

#[test]
fn address_prints_in_hex() {
    let a = Address::new(255);
    assert_eq!(a.to_hex_string(), "0xff");
    assert_eq!(Address::new(0).to_hex_string(), "0x0");
    assert_eq!(a.add(1).get_raw(), 256);
}

#[test]
fn argument_memory_keeps_what_was_set() {
    let mut m = ArgumentMemory::new();
    m.set_arguement(&[1, 2, 3]);
    assert_eq!(m.get_argument(), &[1, 2, 3][..]);
    m.set_arguement(&[9]);
    assert_eq!(m.get_argument(), &[9][..]);
}

#[test]
fn lexer_reads_instructions_registers_and_numbers() {
    let tokens = Lexer::new("mov a64, 5\nhalt").tokenize_asm().ok().unwrap();
    assert_eq!(tokens.len(), 6);
    assert!(matches!(tokens[0], ASMToken::Instruction(InstructionType::Mov)));
    assert!(matches!(tokens[1], ASMToken::Register(RegisterType::A64)));
    assert!(matches!(tokens[2], ASMToken::Comma));
    assert!(matches!(tokens[3], ASMToken::Number(5)));
    assert!(matches!(tokens[4], ASMToken::NewLine));
    assert!(matches!(tokens[5], ASMToken::Instruction(InstructionType::Halt)));
}

#[test]
fn lexer_rejects_unknown_word() {
    match Lexer::new("foo").tokenize_asm() {
        Err(LexerError::InvalidToken(text)) => assert_eq!(text, "foo"),
        Ok(_) => panic!("expected an error"),
    }
}

#[test]
fn mov_number_to_register() {
    let code = assemble("mov a64, 5\n").ok().unwrap();
    assert_eq!(code, vec![13, 16, 0, 3, 4, 5, 0, 0, 0, 0, 0, 0, 0]);
}

#[test]
fn mov_register_to_register_and_stack_pointer() {
    let code = assemble("mov b8, c16\nmov sp, a64").ok().unwrap();
    assert_eq!(code, vec![6, 16, 0, 1, 5, 10, 5, 16, 0, 5, 4]);
}

#[test]
fn mov_register_to_memory() {
    let code = assemble("mov 258, d64").ok().unwrap();
    assert_eq!(code, vec![13, 16, 0, 2, 2, 1, 0, 0, 0, 0, 0, 0, 16]);
}

#[test]
fn register_operations_and_halt() {
    let code = assemble("push a8\nadd a64, b64\nhalt\n").ok().unwrap();
    assert_eq!(code, vec![4, 17, 0, 1, 5, 32, 0, 4, 8, 3, 255, 255]);
}

#[test]
fn missing_operand_is_reported() {
    assert!(matches!(assemble("push"), Err(CompilerError::TokenNotFound)));
    assert!(matches!(
        assemble("add a64 b64"),
        Err(CompilerError::UnexpectedToken(ASMToken::Register(RegisterType::B64)))
    ));
}

#[test]
fn two_instructions_on_one_line_are_rejected() {
    assert!(matches!(
        assemble("halt halt"),
        Err(CompilerError::UnexpectedToken(ASMToken::Instruction(InstructionType::Halt)))
    ));
}

#[test]
fn jumps_get_the_offset_of_their_label() {
    let tokens = vec![
        ASMToken::Label("start".to_string()),
        ASMToken::NewLine,
        ASMToken::Instruction(InstructionType::Halt),
        ASMToken::NewLine,
        ASMToken::Instruction(InstructionType::Jmp),
        ASMToken::ToLabel("end".to_string()),
        ASMToken::NewLine,
        ASMToken::Label("end".to_string()),
    ];
    let code = ASMCompiler::new(tokens).compile().ok().unwrap();
    assert_eq!(code, vec![3, 255, 255, 11, 64, 0, 14, 0, 0, 0, 0, 0, 0, 0]);
}

#[test]
fn jump_to_unknown_label_is_reported() {
    let tokens = vec![
        ASMToken::Instruction(InstructionType::Jmp),
        ASMToken::ToLabel("nowhere".to_string()),
    ];
    match ASMCompiler::new(tokens).compile() {
        Err(CompilerError::UndefinedLabel(l)) => assert_eq!(l, "nowhere"),
        _ => panic!("expected an undefined label"),
    }
}

#[test]
fn redefined_label_takes_the_later_offset() {
    let tokens = vec![
        ASMToken::Label("x".to_string()),
        ASMToken::NewLine,
        ASMToken::Instruction(InstructionType::Halt),
        ASMToken::NewLine,
        ASMToken::Label("x".to_string()),
        ASMToken::NewLine,
        ASMToken::Instruction(InstructionType::Jacz),
        ASMToken::Register(RegisterType::A8),
        ASMToken::Comma,
        ASMToken::Register(RegisterType::B8),
        ASMToken::Comma,
        ASMToken::ToLabel("x".to_string()),
    ];
    let code = ASMCompiler::new(tokens).compile().ok().unwrap();
    assert_eq!(code, vec![3, 255, 255, 13, 68, 0, 1, 5, 3, 0, 0, 0, 0, 0, 0, 0]);
}

#[test]
fn opcodes_and_register_bytes() {
    assert_eq!(InstructionType::Mov.opcode(), 16);
    assert_eq!(InstructionType::Halt.opcode(), 65535);
    assert_eq!(RegisterType::SP.to_byte(), 254);
    assert_eq!(RegisterType::D64.to_byte(), 16);
}
