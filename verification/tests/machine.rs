use raion::vm::address::Address;
use raion::vm::argument::{le_to_u64, Argument, ArgumentParseError};
use raion::vm::argument_memory::ArgumentMemory;
use raion::vm::compiler::ASMCompiler;
use raion::vm::decoder::instruction::halt::Halt;
use raion::vm::decoder::instruction::mov::Mov;
use raion::vm::decoder::instruction::{Instruction, InstructionError};
use raion::vm::decoder::{decode, fetch_instruction, Decoder, DecoderError};
use raion::vm::executor::{ExecutionError, Executor};
use raion::vm::lexer::Lexer;
use raion::vm::memory::{Memory, MemoryError};
use raion::vm::register_file::{RegisterFile, RegisterFileError, RegisterSizes};
use raion::vm::token::{ASMToken, InstructionType, RegisterType};

fn assemble(source: &str) -> Vec<u8> {
    let tokens = Lexer::new(source).tokenize_asm().ok().unwrap();
    ASMCompiler::new(tokens).compile().ok().unwrap()
}

/// A machine whose memory holds `code` followed by `stack` zero bytes, with
/// `sp` at the end of the memory.
fn machine(code: Vec<u8>, stack: usize, register: RegisterFile) -> Executor {
    let mut data = code;
    data.extend(std::iter::repeat(0).take(stack));
    let mut register = register;
    register.set_sp(Address::new(data.len()));
    Executor::new(Memory::new(data), register, ArgumentMemory::new())
}

/// Steps until the machine halts, at most `limit` times.
fn run(executor: &mut Executor, limit: usize) -> Result<(), ExecutionError> {
    for _ in 0..limit {
        if executor.halted() {
            return Ok(());
        }
        executor.step()?;
    }
    panic!("the machine did not halt");
}

#[test]
fn mov_copies_a_sub_register() {
    let mut regs = RegisterFile::new();
    regs.set_general(&RegisterType::A64, 0x1234).unwrap();
    regs.set_general(&RegisterType::B64, 0xffff_ffff_ffff_ffff).unwrap();
    let mut m = machine(assemble("mov b16, a16\nhalt"), 0, regs);
    m.step().unwrap();
    assert_eq!(m.register().get_general(&RegisterType::B64).unwrap(), 0xffff_ffff_ffff_1234);
    assert_eq!(m.register().get_ip().get_raw(), 6);
    assert!(!m.halted());
    m.step().unwrap();
    assert!(m.halted());
    assert_eq!(m.register().get_ip().get_raw(), 9);
}

#[test]
fn add_wraps_and_sets_carry_and_zero() {
    let mut regs = RegisterFile::new();
    regs.set_general(&RegisterType::A64, u64::MAX).unwrap();
    regs.set_general(&RegisterType::B64, 1).unwrap();
    let mut m = machine(assemble("add a64, b64\nhalt"), 0, regs);
    run(&mut m, 10).unwrap();
    let r = m.register();
    assert_eq!(r.get_general(&RegisterType::A64).unwrap(), 0);
    assert!(r.get_carry());
    assert!(r.get_zero());
    assert!(!r.get_negative());
}

#[test]
fn sub_borrows_and_sets_negative() {
    let mut regs = RegisterFile::new();
    regs.set_general(&RegisterType::A8, 1).unwrap();
    regs.set_general(&RegisterType::B8, 2).unwrap();
    let mut m = machine(assemble("sub a8, b8\nhalt"), 0, regs);
    run(&mut m, 10).unwrap();
    let r = m.register();
    assert_eq!(r.get_general(&RegisterType::A8).unwrap(), 0xff);
    assert_eq!(r.get_general(&RegisterType::A64).unwrap(), 0xff);
    assert!(r.get_carry());
    assert!(!r.get_zero());
    assert!(r.get_negative());
}

#[test]
fn inc_wraps_inside_the_sub_register() {
    let mut regs = RegisterFile::new();
    regs.set_general(&RegisterType::C16, 0x01ff).unwrap();
    regs.set_general(&RegisterType::C8, 0xff).unwrap();
    let mut m = machine(assemble("inc c8\nhalt"), 0, regs);
    run(&mut m, 10).unwrap();
    assert_eq!(m.register().get_general(&RegisterType::C16).unwrap(), 0x0100);
}

#[test]
fn push_then_pop_moves_a_value_through_the_stack() {
    let mut regs = RegisterFile::new();
    regs.set_general(&RegisterType::A64, 0x1122_3344_5566_7788).unwrap();
    let mut m = machine(assemble("push a32\npop d32\nhalt"), 8, regs);
    let top = m.register().get_sp().get_raw();
    m.step().unwrap();
    assert_eq!(m.register().get_sp().get_raw(), top - 4);
    let memory = m.memory();
    assert_eq!(
        memory.mem_gets(Address::new(top - 4), 4).unwrap(),
        vec![0x88, 0x77, 0x66, 0x55]
    );
    run(&mut m, 10).unwrap();
    assert_eq!(m.register().get_sp().get_raw(), top);
    assert_eq!(m.register().get_general(&RegisterType::D64).unwrap(), 0x5566_7788);
}

#[test]
fn push_without_stack_room_fails() {
    let mut m = machine(assemble("push a64\nhalt"), 0, RegisterFile::new());
    let top = m.register().get_sp().get_raw();
    assert_eq!(
        m.step(),
        Err(ExecutionError::Instruction(
            InstructionError::MemoryError(MemoryError::InvalidAddr(Address::new(top.wrapping_sub(8)))),
            17
        ))
    );
}

#[test]
fn mov_stores_a_register_in_memory() {
    let mut regs = RegisterFile::new();
    regs.set_general(&RegisterType::D64, 0xabcd).unwrap();
    let mut m = machine(assemble("mov 30, d16\nhalt"), 20, regs);
    run(&mut m, 10).unwrap();
    assert_eq!(m.memory().mem_gets(Address::new(30), 3).unwrap(), vec![0xcd, 0xab, 0]);
}

#[test]
fn assembled_mov_of_a_number_runs() {
    let mut m = machine(assemble("mov a64, 5\nmov b8, 300\nhalt"), 0, RegisterFile::new());
    run(&mut m, 10).unwrap();
    assert_eq!(m.register().get_general(&RegisterType::A64), Ok(5));
    assert_eq!(m.register().get_general(&RegisterType::B8), Ok(44));
}

#[test]
fn unknown_mov_form_is_refused() {
    let mut m = machine(vec![4, 16, 0, 9], 0, RegisterFile::new());
    assert_eq!(
        m.step(),
        Err(ExecutionError::Instruction(InstructionError::InvalidSubOpCode(16, 9), 16))
    );
}

#[test]
fn mov_from_sp_is_not_general() {
    let mut m = machine(vec![6, 16, 0, 1, 4, 254], 0, RegisterFile::new());
    assert_eq!(
        m.step(),
        Err(ExecutionError::Instruction(
            InstructionError::RegisterFileError(RegisterFileError::NotGeneral(RegisterType::SP)),
            16
        ))
    );
    assert_eq!(m.register().get_ip().get_raw(), 6);
}

#[test]
fn unknown_register_byte_is_reported() {
    let mut m = machine(vec![4, 30, 0, 99], 0, RegisterFile::new());
    assert_eq!(
        m.step(),
        Err(ExecutionError::Instruction(
            InstructionError::ArgumentParseError(ArgumentParseError::InvalidRegister(99)),
            30
        ))
    );
}

#[test]
fn conditional_jumps_follow_the_comparison() {
    // jacc a8, b8 -> skip; halt; skip: inc c8; halt
    let tokens = vec![
        ASMToken::Instruction(InstructionType::Jacc),
        ASMToken::Register(RegisterType::A8),
        ASMToken::Comma,
        ASMToken::Register(RegisterType::B8),
        ASMToken::Comma,
        ASMToken::ToLabel("skip".to_string()),
        ASMToken::NewLine,
        ASMToken::Instruction(InstructionType::Halt),
        ASMToken::NewLine,
        ASMToken::Label("skip".to_string()),
        ASMToken::NewLine,
        ASMToken::Instruction(InstructionType::Inc),
        ASMToken::Register(RegisterType::C8),
        ASMToken::NewLine,
        ASMToken::Instruction(InstructionType::Halt),
    ];
    let code = ASMCompiler::new(tokens).compile().ok().unwrap();

    let mut taken = RegisterFile::new();
    taken.set_general(&RegisterType::A8, 1).unwrap();
    taken.set_general(&RegisterType::B8, 2).unwrap();
    let mut m = machine(code.clone(), 0, taken);
    run(&mut m, 10).unwrap();
    assert_eq!(m.register().get_general(&RegisterType::C8).unwrap(), 1);

    let mut not_taken = RegisterFile::new();
    not_taken.set_general(&RegisterType::A8, 2).unwrap();
    not_taken.set_general(&RegisterType::B8, 1).unwrap();
    let mut m = machine(code, 0, not_taken);
    run(&mut m, 10).unwrap();
    assert_eq!(m.register().get_general(&RegisterType::C8).unwrap(), 0);
    assert_eq!(m.register().get_ip().get_raw(), 16);
}

#[test]
fn jace_and_jacn_compare_signs() {
    let target = 20u64.to_le_bytes();
    let mut jace = vec![13, 70, 0, 1, 5];
    jace.extend_from_slice(&target);
    let mut jacn = vec![13, 67, 0, 1, 5];
    jacn.extend_from_slice(&target);

    let mut bigger = RegisterFile::new();
    bigger.set_general(&RegisterType::A8, 5).unwrap();
    bigger.set_general(&RegisterType::B8, 3).unwrap();
    let mut m = machine(jace.clone(), 0, bigger);
    m.step().unwrap();
    assert_eq!(m.register().get_ip().get_raw(), 20);

    let mut equal = RegisterFile::new();
    equal.set_general(&RegisterType::A8, 3).unwrap();
    equal.set_general(&RegisterType::B8, 3).unwrap();
    let mut m = machine(jace, 0, equal);
    m.step().unwrap();
    assert_eq!(m.register().get_ip().get_raw(), 13);

    let mut smaller = RegisterFile::new();
    smaller.set_general(&RegisterType::A8, 3).unwrap();
    smaller.set_general(&RegisterType::B8, 5).unwrap();
    let mut m = machine(jacn, 0, smaller);
    m.step().unwrap();
    assert_eq!(m.register().get_ip().get_raw(), 20);
}

#[test]
fn jmz_jumps_only_on_zero() {
    let mut code = vec![11, 65, 0];
    code.extend_from_slice(&7u64.to_le_bytes());
    let mut m = machine(code.clone(), 0, RegisterFile::new());
    m.step().unwrap();
    assert_eq!(m.register().get_ip().get_raw(), 11);

    let mut zero = RegisterFile::new();
    zero.set_zero(true);
    let mut m = machine(code, 0, zero);
    m.step().unwrap();
    assert_eq!(m.register().get_ip().get_raw(), 7);
}

#[test]
fn decoder_errors() {
    let mut m = machine(vec![3, 66, 0], 0, RegisterFile::new());
    assert_eq!(m.step(), Err(ExecutionError::Decoder(DecoderError::InvalidOpCode(66))));

    let mut m = machine(vec![2, 0], 0, RegisterFile::new());
    assert_eq!(
        m.step(),
        Err(ExecutionError::Decoder(DecoderError::InvalidIl(Address::new(0), 2)))
    );

    let mut m = machine(vec![9, 16, 0], 0, RegisterFile::new());
    assert_eq!(
        m.step(),
        Err(ExecutionError::Decoder(DecoderError::InvalidIl(Address::new(0), 9)))
    );

    let mut past = RegisterFile::new();
    past.set_ip(Address::new(5));
    let mut m = machine(vec![3, 255, 255], 0, past);
    assert_eq!(
        m.step(),
        Err(ExecutionError::Decoder(DecoderError::InvalidIp(Address::new(5))))
    );
}

#[test]
fn decode_names_executable_instructions() {
    assert_eq!(decode(17), Ok(InstructionType::Push));
    assert_eq!(decode(65535), Ok(InstructionType::Halt));
    assert_eq!(decode(31), Ok(InstructionType::Cmp));
    assert_eq!(decode(33), Ok(InstructionType::Sub));
    assert_eq!(decode(64), Ok(InstructionType::Jmp));
    assert_eq!(decode(65), Ok(InstructionType::Jmz));
    assert_eq!(decode(34), Err(DecoderError::InvalidOpCode(34)));
    assert_eq!(decode(68), Err(DecoderError::InvalidOpCode(68)));
    let memory = Memory::new(assemble("pop b8"));
    let (t, argument, length) = fetch_instruction(&memory, &RegisterFile::new()).unwrap();
    assert_eq!(t, InstructionType::Pop);
    assert_eq!(argument, vec![5]);
    assert_eq!(length, 4);
}

#[test]
fn decoder_runs_one_instruction_in_place() {
    let mut memory = Memory::new(assemble("halt"));
    let mut register = RegisterFile::new();
    {
        let mut decoder = Decoder::new(&mut memory, &mut register);
        decoder.decode_and_execute().unwrap();
    }
    assert!(register.get_halt());
    assert_eq!(register.get_ip().get_raw(), 3);
    let mut decoder = Decoder::new(&mut memory, &mut register);
    assert_eq!(
        decoder.decode_and_execute(),
        Err(DecoderError::InvalidIp(Address::new(3)))
    );
}

#[test]
fn instructions_run_on_their_own() {
    let mut memory = Memory::new(vec![0; 4]);
    let mut register = RegisterFile::new();
    let halt = Halt::new(&[], 3);
    assert_eq!(halt.op_code(), 65535);
    halt.execute(&mut register, &mut memory).unwrap();
    assert!(register.get_halt());
    let argument = [1u8, 5, 1];
    let mov = Mov::new(&argument, 6);
    assert_eq!(mov.op_code(), 16);
    register.set_general(&RegisterType::A8, 9).unwrap();
    mov.execute(&mut register, &mut memory).unwrap();
    assert_eq!(register.get_general(&RegisterType::B8).unwrap(), 9);
    assert_eq!(register.get_ip().get_raw(), 9);
}

#[test]
fn argument_reads_bytes_registers_and_addresses() {
    let bytes = [7u8, 16, 1, 2, 0, 0, 0, 0, 0, 0];
    let mut argument = Argument::new(&bytes);
    assert_eq!(argument.parse_u8(), Ok(7));
    assert_eq!(argument.parse_register(), Ok(RegisterType::D64));
    assert_eq!(argument.parse_address(), Ok(Address::new(0x201)));
    assert_eq!(argument.parse_u8(), Err(ArgumentParseError::EndOfArgument));
    assert_eq!(le_to_u64(&[0x88, 0x77]), 0x7788);
    assert_eq!(le_to_u64(&[]), 0);
}

#[test]
fn memory_checks_its_bounds() {
    let mut memory = Memory::new(vec![1, 2, 3]);
    assert_eq!(memory.len(), 3);
    assert_eq!(memory.mem_get(Address::new(2)), Ok(3));
    assert_eq!(memory.mem_get(Address::new(3)), Err(MemoryError::InvalidAddr(Address::new(3))));
    assert_eq!(
        memory.mem_gets(Address::new(1), 3),
        Err(MemoryError::OutOfRange(Address::new(1), 3))
    );
    assert_eq!(memory.mem_sets(Address::new(1), &[9, 9]), Ok(()));
    assert_eq!(memory.mem_gets(Address::new(0), 3).unwrap(), vec![1, 9, 9]);
    assert_eq!(
        memory.mem_sets(Address::new(2), &[0, 0]),
        Err(MemoryError::OutOfRange(Address::new(2), 2))
    );
    assert_eq!(memory.mem_set(Address::new(0), 4), Ok(()));
    assert_eq!(memory.mem_get(Address::new(0)), Ok(4));
}

#[test]
fn register_file_sizes_and_flags() {
    assert_eq!(RegisterType::B16.size(), RegisterSizes::SizeU16);
    assert_eq!(RegisterType::SP.size().byte(), 8);
    let mut r = RegisterFile::new();
    assert_eq!(
        r.set_general(&RegisterType::IP, 1),
        Err(RegisterFileError::NotGeneral(RegisterType::IP))
    );
    r.set_sp(Address::new(10));
    assert_eq!(r.dec_sp(4).get_raw(), 6);
    assert_eq!(r.inc_sp(2).get_raw(), 8);
    assert_eq!(r.dec_sp(9).get_raw(), usize::MAX);
    r.set_general(&RegisterType::A32, 0x1_0000_0002).unwrap();
    assert_eq!(r.get_general(&RegisterType::A64).unwrap(), 2);
}

#[test]
fn jmp_sets_ip_to_its_address() {
    let mut code = vec![11, 64, 0];
    code.extend_from_slice(&7u64.to_le_bytes());
    let mut m = machine(code, 0, RegisterFile::new());
    m.step().unwrap();
    assert_eq!(m.register().get_ip().get_raw(), 7);

    let mut m = machine(vec![5, 64, 0, 1, 2], 0, RegisterFile::new());
    assert!(m.step().is_err());
}
