use raion::vm::address::Address;
use raion::vm::argument_memory::ArgumentMemory;
use raion::vm::executor::Executor;
use raion::vm::memory::Memory;
use raion::vm::register_file::RegisterFile;
use raion::vm::token::{InstructionType, RegisterType, MOV_NUM2REG, MOV_REG2DEREF_REG, MOV_REG2REG};

/// A memory of `0xFFFF` bytes holding `instructions` (opcode, argument),
/// each behind its length and opcode, and then `halt`.
fn program(instructions: &[(InstructionType, Vec<u8>)]) -> Vec<u8> {
    let mut data = Vec::new();
    let mut encode = |opcode: u16, argument: &[u8]| {
        let opcode = opcode.to_le_bytes();
        data.push((argument.len() + 3) as u8);
        data.push(opcode[0]);
        data.push(opcode[1]);
        data.extend_from_slice(argument);
    };
    for (instruction, argument) in instructions {
        encode(instruction.opcode(), argument);
    }
    encode(InstructionType::Halt.opcode(), &[]);
    data.resize(0xFFFF, 0);
    data
}

/// Runs the machine until it halts or an instruction fails.
fn execute(data: Vec<u8>, registers: RegisterFile) -> Executor {
    let mut executor = Executor::new(Memory::new(data), registers, ArgumentMemory::new());
    while !executor.halted() {
        if executor.step().is_err() {
            break;
        }
    }
    executor
}

fn registers(values: &[(RegisterType, u64)]) -> RegisterFile {
    let mut r = RegisterFile::new();
    for (reg, value) in values {
        r.set_general(reg, *value).unwrap();
    }
    r
}

fn get(executor: &Executor, reg: RegisterType) -> u64 {
    executor.register().get_general(&reg).unwrap()
}

fn flags(executor: &Executor) -> (bool, bool, bool) {
    let r = executor.register();
    (r.get_zero(), r.get_negative(), r.get_carry())
}

fn stack_bytes(executor: &Executor, offset: usize, n: usize) -> Vec<u8> {
    let sp = executor.register().get_sp().get_raw();
    executor.memory().mem_gets(Address::new(sp + offset), n).unwrap()
}

#[test]
fn normal_add() {
    let executor = execute(
        program(&[(InstructionType::Add, vec![4, 8])]),
        registers(&[(RegisterType::A64, 5), (RegisterType::B64, 3)]),
    );
    assert_eq!(get(&executor, RegisterType::A64), 8);
    assert_eq!(flags(&executor), (false, false, false));
}

#[test]
fn carry_add() {
    let executor = execute(
        program(&[(InstructionType::Add, vec![4, 8])]),
        registers(&[(RegisterType::A64, 5), (RegisterType::B64, 0xFFFFFFFFFFFFFFFF)]),
    );
    assert_eq!(get(&executor, RegisterType::A64), 4);
    assert_eq!(flags(&executor), (false, false, true));
}

#[test]
fn zero_add() {
    let executor = execute(
        program(&[(InstructionType::Add, vec![4, 8])]),
        registers(&[(RegisterType::A64, 0), (RegisterType::B64, 0)]),
    );
    assert_eq!(get(&executor, RegisterType::A64), 0);
    assert_eq!(flags(&executor), (true, false, false));
}

#[test]
fn negative_add() {
    let executor = execute(
        program(&[(InstructionType::Add, vec![4, 8])]),
        registers(&[(RegisterType::A64, 1), (RegisterType::B64, 0x7FFFFFFFFFFFFFFF)]),
    );
    assert_eq!(get(&executor, RegisterType::A64), 9223372036854775808);
    assert_eq!(flags(&executor), (false, true, false));
}

#[test]
fn normal_sub() {
    let executor = execute(
        program(&[(InstructionType::Sub, vec![4, 8])]),
        registers(&[(RegisterType::A64, 8), (RegisterType::B64, 5)]),
    );
    assert_eq!(get(&executor, RegisterType::A64), 3);
    assert_eq!(flags(&executor), (false, false, false));
}

#[test]
fn zero_sub() {
    let executor = execute(
        program(&[(InstructionType::Sub, vec![4, 8])]),
        registers(&[(RegisterType::A64, 3), (RegisterType::B64, 3)]),
    );
    assert_eq!(get(&executor, RegisterType::A64), 0);
    assert_eq!(flags(&executor), (true, false, false));
}

#[test]
fn negative_sub() {
    let executor = execute(
        program(&[(InstructionType::Sub, vec![4, 8])]),
        registers(&[(RegisterType::A64, 18446744073709551615), (RegisterType::B64, 1)]),
    );
    assert_eq!(get(&executor, RegisterType::A64), 18446744073709551614);
    assert_eq!(flags(&executor), (false, true, false));
}

#[test]
fn carry_sub() {
    let executor = execute(
        program(&[(InstructionType::Sub, vec![4, 8])]),
        registers(&[(RegisterType::A64, 2), (RegisterType::B64, 3)]),
    );
    assert_eq!(get(&executor, RegisterType::A64), 18446744073709551615);
    assert_eq!(flags(&executor), (false, true, true));
}

#[test]
fn push_u64() {
    let mut r = registers(&[(RegisterType::A64, 33), (RegisterType::B64, 687545)]);
    r.set_sp(Address::new(0xFFFE));
    let executor = execute(
        program(&[
            (InstructionType::Push, vec![RegisterType::A64.to_byte()]),
            (InstructionType::Push, vec![RegisterType::B64.to_byte()]),
        ]),
        r,
    );
    assert_eq!(get(&executor, RegisterType::B64), u64::from_le_bytes(<[u8; 8]>::try_from(stack_bytes(&executor, 0, 8)).unwrap()));
    assert_eq!(get(&executor, RegisterType::A64), u64::from_le_bytes(<[u8; 8]>::try_from(stack_bytes(&executor, 8, 8)).unwrap()));
}

#[test]
fn push_u32() {
    let mut r = registers(&[(RegisterType::A32, 56138), (RegisterType::B32, 42487)]);
    r.set_sp(Address::new(255));
    let executor = execute(
        program(&[
            (InstructionType::Push, vec![RegisterType::A32.to_byte()]),
            (InstructionType::Push, vec![RegisterType::B32.to_byte()]),
        ]),
        r,
    );
    assert_eq!(get(&executor, RegisterType::B32), u32::from_le_bytes(<[u8; 4]>::try_from(stack_bytes(&executor, 0, 4)).unwrap()) as u64);
    assert_eq!(get(&executor, RegisterType::A32), u32::from_le_bytes(<[u8; 4]>::try_from(stack_bytes(&executor, 4, 4)).unwrap()) as u64);
}

#[test]
fn push_u16() {
    let mut r = registers(&[(RegisterType::A16, 2454), (RegisterType::B16, 180)]);
    r.set_sp(Address::new(255));
    let executor = execute(
        program(&[
            (InstructionType::Push, vec![RegisterType::A16.to_byte()]),
            (InstructionType::Push, vec![RegisterType::B16.to_byte()]),
        ]),
        r,
    );
    assert_eq!(get(&executor, RegisterType::B16), u16::from_le_bytes(<[u8; 2]>::try_from(stack_bytes(&executor, 0, 2)).unwrap()) as u64);
    assert_eq!(get(&executor, RegisterType::A16), u16::from_le_bytes(<[u8; 2]>::try_from(stack_bytes(&executor, 2, 2)).unwrap()) as u64);
}

#[test]
fn push_u8() {
    let mut r = registers(&[(RegisterType::A8, 24), (RegisterType::B8, 211)]);
    r.set_sp(Address::new(255));
    let executor = execute(
        program(&[
            (InstructionType::Push, vec![RegisterType::A8.to_byte()]),
            (InstructionType::Push, vec![RegisterType::B8.to_byte()]),
        ]),
        r,
    );
    assert_eq!(get(&executor, RegisterType::B8), stack_bytes(&executor, 0, 1)[0] as u64);
    assert_eq!(get(&executor, RegisterType::A8), stack_bytes(&executor, 1, 1)[0] as u64);
}

#[test]
fn reg2reg() {
    let executor = execute(
        program(&[(
            InstructionType::Mov,
            vec![MOV_REG2REG, RegisterType::A64.to_byte(), RegisterType::B64.to_byte()],
        )]),
        registers(&[(RegisterType::A64, 32), (RegisterType::B64, 64)]),
    );
    assert_eq!(get(&executor, RegisterType::A64), get(&executor, RegisterType::B64));
}

#[test]
fn carry_cmp() {
    let executor = execute(
        program(&[(InstructionType::Cmp, vec![4, 8])]),
        registers(&[(RegisterType::A64, 1), (RegisterType::B64, 2)]),
    );
    assert_eq!(executor.register().get_zero(), false);
    assert_eq!(executor.register().get_negative(), true);
    assert_eq!(executor.register().get_carry(), true);
}

#[test]
fn zero_cmp() {
    let executor = execute(
        program(&[(InstructionType::Cmp, vec![4, 8])]),
        registers(&[(RegisterType::A64, 1), (RegisterType::B64, 1)]),
    );
    assert_eq!(executor.register().get_zero(), true);
    assert_eq!(executor.register().get_negative(), false);
    assert_eq!(executor.register().get_carry(), false);
}

#[test]
fn negative_cmp() {
    let executor = execute(
        program(&[(InstructionType::Cmp, vec![4, 8])]),
        registers(&[(RegisterType::A64, 18446744073709551615), (RegisterType::B64, 1)]),
    );
    assert_eq!(executor.register().get_zero(), false);
    assert_eq!(executor.register().get_negative(), true);
    assert_eq!(executor.register().get_carry(), false);
}

#[test]
fn cmp_keeps_both_registers() {
    let executor = execute(
        program(&[(InstructionType::Cmp, vec![4, 8])]),
        registers(&[(RegisterType::A64, 1), (RegisterType::B64, 2)]),
    );
    assert_eq!(get(&executor, RegisterType::A64), 1);
    assert_eq!(get(&executor, RegisterType::B64), 2);
}

#[test]
fn pop_restores_pushed_registers_after_overwrite() {
    let mut r = registers(&[
        (RegisterType::A64, 33),
        (RegisterType::B64, 687545),
        (RegisterType::C64, 123980),
        (RegisterType::D64, 943099),
    ]);
    r.set_sp(Address::new(0xFFFE));
    let a = RegisterType::A64.to_byte();
    let b = RegisterType::B64.to_byte();
    let c = RegisterType::C64.to_byte();
    let d = RegisterType::D64.to_byte();
    let executor = execute(
        program(&[
            (InstructionType::Push, vec![a]),
            (InstructionType::Push, vec![b]),
            (InstructionType::Mov, vec![MOV_REG2REG, a, c]),
            (InstructionType::Mov, vec![MOV_REG2REG, b, d]),
            (InstructionType::Pop, vec![b]),
            (InstructionType::Pop, vec![a]),
        ]),
        r,
    );
    assert_eq!(get(&executor, RegisterType::B64), 687545);
    assert_eq!(get(&executor, RegisterType::A64), 33);
    assert_eq!(executor.register().get_sp().get_raw(), 0xFFFE);
}

#[test]
fn num2reg_u8() {
    let mut argument = vec![MOV_NUM2REG, RegisterType::A8.to_byte()];
    argument.extend_from_slice(&(211u8).to_le_bytes());
    let executor = execute(program(&[(InstructionType::Mov, argument)]), RegisterFile::new());
    assert_eq!(get(&executor, RegisterType::A8), 211);
}

#[test]
fn num2reg_u16() {
    let mut argument = vec![MOV_NUM2REG, RegisterType::A16.to_byte()];
    argument.extend_from_slice(&(2211u16).to_le_bytes());
    let executor = execute(program(&[(InstructionType::Mov, argument)]), RegisterFile::new());
    assert_eq!(get(&executor, RegisterType::A16), 2211);
}

#[test]
fn num2reg_u32() {
    let mut argument = vec![MOV_NUM2REG, RegisterType::A32.to_byte()];
    argument.extend_from_slice(&(2211520u32).to_le_bytes());
    let executor = execute(program(&[(InstructionType::Mov, argument)]), RegisterFile::new());
    assert_eq!(get(&executor, RegisterType::A32), 2211520);
}

#[test]
fn num2reg_u64() {
    let mut argument = vec![MOV_NUM2REG, RegisterType::A64.to_byte()];
    argument.extend_from_slice(&(22115221320u64).to_le_bytes());
    let executor = execute(program(&[(InstructionType::Mov, argument)]), RegisterFile::new());
    assert_eq!(get(&executor, RegisterType::A64), 22115221320);
}

#[test]
fn pop_u64() {
    let mut r = registers(&[(RegisterType::A64, 33), (RegisterType::B64, 687545)]);
    r.set_sp(Address::new(0xFFFE));
    let mut load_a = vec![MOV_NUM2REG, RegisterType::A64.to_byte()];
    load_a.extend_from_slice(&(123980u64).to_le_bytes());
    let mut load_b = vec![MOV_NUM2REG, RegisterType::B64.to_byte()];
    load_b.extend_from_slice(&(943099u64).to_le_bytes());
    let executor = execute(
        program(&[
            (InstructionType::Push, vec![RegisterType::A64.to_byte()]),
            (InstructionType::Push, vec![RegisterType::B64.to_byte()]),
            (InstructionType::Mov, load_a),
            (InstructionType::Mov, load_b),
            (InstructionType::Pop, vec![RegisterType::B64.to_byte()]),
            (InstructionType::Pop, vec![RegisterType::A64.to_byte()]),
        ]),
        r,
    );
    assert_eq!(get(&executor, RegisterType::B64), 687545);
    assert_eq!(get(&executor, RegisterType::A64), 33);
}

#[test]
fn pop_u32() {
    let mut r = registers(&[(RegisterType::A32, 1211), (RegisterType::B32, 2154)]);
    r.set_sp(Address::new(0xFFFE));
    let mut load_a = vec![MOV_NUM2REG, RegisterType::A32.to_byte()];
    load_a.extend_from_slice(&(642u32).to_le_bytes());
    let mut load_b = vec![MOV_NUM2REG, RegisterType::B32.to_byte()];
    load_b.extend_from_slice(&(4454u32).to_le_bytes());
    let executor = execute(
        program(&[
            (InstructionType::Push, vec![RegisterType::A32.to_byte()]),
            (InstructionType::Push, vec![RegisterType::B32.to_byte()]),
            (InstructionType::Mov, load_a),
            (InstructionType::Mov, load_b),
            (InstructionType::Pop, vec![RegisterType::B32.to_byte()]),
            (InstructionType::Pop, vec![RegisterType::A32.to_byte()]),
        ]),
        r,
    );
    assert_eq!(get(&executor, RegisterType::B32), 2154);
    assert_eq!(get(&executor, RegisterType::A32), 1211);
}

#[test]
fn pop_u16() {
    let mut r = registers(&[(RegisterType::A16, 1211), (RegisterType::B16, 2154)]);
    r.set_sp(Address::new(0xFFFE));
    let mut load_a = vec![MOV_NUM2REG, RegisterType::A16.to_byte()];
    load_a.extend_from_slice(&(642u32).to_le_bytes());
    let mut load_b = vec![MOV_NUM2REG, RegisterType::B16.to_byte()];
    load_b.extend_from_slice(&(4454u32).to_le_bytes());
    let executor = execute(
        program(&[
            (InstructionType::Push, vec![RegisterType::A16.to_byte()]),
            (InstructionType::Push, vec![RegisterType::B16.to_byte()]),
            (InstructionType::Mov, load_a),
            (InstructionType::Mov, load_b),
            (InstructionType::Pop, vec![RegisterType::B16.to_byte()]),
            (InstructionType::Pop, vec![RegisterType::A16.to_byte()]),
        ]),
        r,
    );
    assert_eq!(get(&executor, RegisterType::B16), 2154);
    assert_eq!(get(&executor, RegisterType::A16), 1211);
}

#[test]
fn pop_u8() {
    let mut r = registers(&[(RegisterType::A8, 22), (RegisterType::B8, 101)]);
    r.set_sp(Address::new(0xFFFE));
    let mut load_a = vec![MOV_NUM2REG, RegisterType::A8.to_byte()];
    load_a.extend_from_slice(&(44u32).to_le_bytes());
    let mut load_b = vec![MOV_NUM2REG, RegisterType::B8.to_byte()];
    load_b.extend_from_slice(&(111u32).to_le_bytes());
    let executor = execute(
        program(&[
            (InstructionType::Push, vec![RegisterType::A8.to_byte()]),
            (InstructionType::Push, vec![RegisterType::B8.to_byte()]),
            (InstructionType::Mov, load_a),
            (InstructionType::Mov, load_b),
            (InstructionType::Pop, vec![RegisterType::B8.to_byte()]),
            (InstructionType::Pop, vec![RegisterType::A8.to_byte()]),
        ]),
        r,
    );
    assert_eq!(get(&executor, RegisterType::B8), 101);
    assert_eq!(get(&executor, RegisterType::A8), 22);
}

#[test]
fn reg2mem_u8() {
    let executor = execute(
        program(&[(
            InstructionType::Mov,
            vec![MOV_REG2DEREF_REG, RegisterType::A8.to_byte(), RegisterType::B64.to_byte()],
        )]),
        registers(&[(RegisterType::A8, 120), (RegisterType::B64, 0xFF)]),
    );
    assert_eq!(
        &get(&executor, RegisterType::A8).to_le_bytes()[0..1],
        executor.memory().mem_gets(Address::new(0xFF), 1).unwrap()
    );
}

#[test]
fn reg2mem_u16() {
    let executor = execute(
        program(&[(
            InstructionType::Mov,
            vec![MOV_REG2DEREF_REG, RegisterType::A16.to_byte(), RegisterType::B64.to_byte()],
        )]),
        registers(&[(RegisterType::A16, 65512), (RegisterType::B64, 0xFF)]),
    );
    assert_eq!(
        &get(&executor, RegisterType::A16).to_le_bytes()[0..2],
        executor.memory().mem_gets(Address::new(0xFF), 2).unwrap()
    );
}

#[test]
fn reg2mem_u32() {
    let executor = execute(
        program(&[(
            InstructionType::Mov,
            vec![MOV_REG2DEREF_REG, RegisterType::A32.to_byte(), RegisterType::B64.to_byte()],
        )]),
        registers(&[(RegisterType::A32, 45555), (RegisterType::B64, 0xFF)]),
    );
    assert_eq!(
        &get(&executor, RegisterType::A32).to_le_bytes()[0..4],
        executor.memory().mem_gets(Address::new(0xFF), 4).unwrap()
    );
}

#[test]
fn reg2deref_reg_u64() {
    let executor = execute(
        program(&[(
            InstructionType::Mov,
            vec![MOV_REG2DEREF_REG, RegisterType::A64.to_byte(), RegisterType::B64.to_byte()],
        )]),
        registers(&[(RegisterType::A64, 15), (RegisterType::B64, 0xFF)]),
    );
    assert_eq!(
        &get(&executor, RegisterType::A64).to_le_bytes()[0..8],
        executor.memory().mem_gets(Address::new(0xFF), 8).unwrap()
    );
}

#[test]
fn num2reg_keeps_the_bits_above_a_sub_register() {
    let mut argument = vec![MOV_NUM2REG, RegisterType::A8.to_byte()];
    argument.extend_from_slice(&0x1234u64.to_le_bytes());
    let executor = execute(
        program(&[(InstructionType::Mov, argument)]),
        registers(&[(RegisterType::A64, 0xAABB)]),
    );
    assert_eq!(get(&executor, RegisterType::A64), 0xAA34);
}

#[test]
fn reg2deref_stores_the_value_itself() {
    let executor = execute(
        program(&[(
            InstructionType::Mov,
            vec![MOV_REG2DEREF_REG, RegisterType::A16.to_byte(), RegisterType::C64.to_byte()],
        )]),
        registers(&[(RegisterType::A16, 0x0102), (RegisterType::C64, 0x200)]),
    );
    assert_eq!(executor.memory().mem_gets(Address::new(0x200), 2).unwrap(), vec![0x02, 0x01]);
}
