use raion::compiler::rin_compiler::generator::GeneratorError;
use raion::compiler::rin_compiler::Path;
use raion::compiler::CompilerError;
use raion::lexer::{IntErrorKind, LexerError};
use raion::location::{Location, WithLocation};
use raion::token::asm_token::ASMToken;
use raion::token::rin_token::RinToken;
use raion::vm::address::Address;
use raion::vm::argument::ArgumentParseError;
use raion::vm::compiler::CompilerError as VmCompilerError;
use raion::vm::decoder::instruction::InstructionError;
use raion::vm::decoder::DecoderError;
use raion::vm::executor::ExecutionError;
use raion::vm::lexer::{Lexer, LexerError as VmLexerError};
use raion::vm::memory::MemoryError;
use raion::vm::register_file::RegisterFileError;
use raion::vm::token::{ASMToken as VmToken, InstructionType, RegisterType};

const BOLD: &str = "\x1b[1m";
const RESET: &str = "\x1b[0m";
const RED: &str = "\x1b[31m";
const BLUE: &str = "\x1b[34m";
const UNCOLOR: &str = "\x1b[39m";

fn painted(color: &str, text: &str) -> String {
    format!("{color}{BOLD}{text}{RESET}{UNCOLOR}")
}

fn pipe(text: &str, margin: usize) -> String {
    format!("{} {}{}", painted(BLUE, text), " ".repeat(margin - text.len()), painted(BLUE, "|"))
}

fn mark(n: usize, text: &str, c: char, color: &str) -> String {
    format!("{}{}", " ".repeat(n), painted(color, &format!("{c}{text}")))
}

fn header(headline: &str, margin: usize, place: &str) -> String {
    format!(
        "{}: {headline}\n {}{} {place}\n",
        painted(RED, "error"),
        " ".repeat(margin.saturating_sub(2)),
        painted(BLUE, "---->")
    )
}

fn sources(file: &str, lines: &[&str]) -> Vec<(String, Vec<String>)> {
    vec![(file.to_string(), lines.iter().map(|l| l.to_string()).collect())]
}

#[test]
fn invalid_token_message_points_at_the_place() {
    let e = LexerError::InvalidToken("$".to_string(), Location::new(4, 2, "a.rin".to_string()));
    let src = sources("a.rin", &["let x", "  $"]);
    assert!(e.can_describe(&src));
    let expected = header(&format!("{BOLD}Invalid token `$`{RESET}"), 1, "a.rin:2:4")
        + &pipe("2", 1)
        + "   $\n"
        + &pipe("", 1)
        + &mark(4, "", '^', RED);
    assert_eq!(e.message(&src), expected);
}

#[test]
fn messages_need_the_quoted_line() {
    let e = LexerError::InvalidToken("$".to_string(), Location::new(4, 3, "a.rin".to_string()));
    assert!(!e.can_describe(&sources("a.rin", &["let x", "  $"])));
    assert!(!e.can_describe(&sources("b.rin", &["a", "b", "c"])));
    assert!(LexerError::EndOfBuffer.can_describe(&Vec::new()));
}

#[test]
fn unlocated_lexer_messages() {
    assert_eq!(
        LexerError::EndOfBuffer.message(&Vec::new()),
        "trying to read next token but already at the end of the buffer"
    );
    assert_eq!(
        LexerError::InvalidInterger(IntErrorKind::PosOverflow).message(&Vec::new()),
        "Trying to tokenize invalid number, number too large to fit in target type"
    );
    assert_eq!(
        LexerError::InvalidInterger(IntErrorKind::Empty).message(&Vec::new()),
        "Trying to tokenize invalid number, cannot parse integer from empty string"
    );
}

#[test]
fn token_descriptions() {
    assert_eq!(ASMToken::Interger(42).describe(), "Number token with value: 42");
    assert_eq!(ASMToken::Comma.describe(), "Comma token");
    assert_eq!(ASMToken::Label("main".to_string()).describe(), "Label token with value: main");
    assert_eq!(RinToken::Interger(7).describe(), "Interger token with value `7`");
    assert_eq!(RinToken::Identifier("abc".to_string()).describe(), "Identifier token with value `abc`");
    assert_eq!(RinToken::NewLine.describe(), "new line token");
}

#[test]
fn compiler_messages() {
    let none: CompilerError<RinToken> = CompilerError::UnexpectedToken(None);
    assert_eq!(none.message(&Vec::new()), "Unexpected Token");
    let label: CompilerError<ASMToken> =
        CompilerError::UndefinedLabel("x".to_string(), Location::new(3, 1, "f.asm".to_string()));
    assert_eq!(label.message(&Vec::new()), "Undefied label `x` at line f.asm:1:3");
    let arg: CompilerError<ASMToken> = CompilerError::InvalidArgument(Location::new(0, 12, "f.asm".to_string()));
    assert_eq!(arg.message(&Vec::new()), "invalid argument on line f.asm:12:0");

    let token = WithLocation::new(RinToken::Comma, Location::new(1, 1, "m.rin".to_string()));
    let e: CompilerError<RinToken> = CompilerError::UnexpectedToken(Some(token));
    let src = sources("m.rin", &["(,"]);
    let expected = header(&format!("{BOLD}Unexpected token `Comma token`{RESET}"), 1, "m.rin:1:1")
        + &pipe("1", 1)
        + " (,\n"
        + &pipe("", 1)
        + &mark(1, "", '^', RED);
    assert_eq!(e.message(&src), expected);
}

#[test]
fn generator_messages() {
    let module = GeneratorError::UndefinedModule(Path::new("a").join(Path::new("b")));
    assert!(module.can_describe(&Vec::new()));
    assert_eq!(
        module.message(&Vec::new()),
        format!("{}: {BOLD}Import of an undefined module `a.b`{RESET}", painted(RED, "error"))
    );

    let call = WithLocation::new(Path::new("f"), Location::new(3, 1, "m.rin".to_string()));
    let e = GeneratorError::TooFewArguemnts(call, 0, 1, 1);
    let src = sources("m.rin", &["x = f()"]);
    let expected = header(
        &format!("{BOLD}Too few arguments. Expected 1 arguments but found 0 arguments{RESET}"),
        1,
        "m.rin:1:3",
    ) + &pipe("1", 1)
        + " x = f()\n"
        + &pipe("", 1)
        + &mark(3, " argument #1 is missing", '^', RED);
    assert_eq!(e.message(&src), expected);
}

#[test]
fn machine_token_descriptions() {
    assert_eq!(VmToken::Register(RegisterType::SP).describe(), "Register token with value: stack pointer");
    assert_eq!(VmToken::Instruction(InstructionType::Mov).describe(), "Instruction token with value: mov");
    assert_eq!(VmToken::Number(255).describe(), "Number token with value: 255");
    assert_eq!(VmToken::ToLabel("end".to_string()).describe(), "ToLabel token with value: end");
    assert_eq!(VmToken::NewLine.describe(), "New line token");
}

#[test]
fn machine_assembly_messages() {
    assert_eq!(
        VmLexerError::InvalidToken("foo".to_string()).message(),
        "Trying to tokenize invalid input: foo"
    );
    assert_eq!(
        VmCompilerError::UnexpectedToken(VmToken::Comma).message(),
        "Trying to compile with unexpected token Comma token"
    );
    assert_eq!(VmCompilerError::TokenNotFound.message(), "No token found where one was expected.");
    assert_eq!(VmCompilerError::UndefinedLabel("end".to_string()).message(), "Undefied label: end");
}

#[test]
fn machine_lexer_reports_overflowing_numbers() {
    assert!(Lexer::new("mov a8, 99999999999999999999").tokenize_checked().is_none());
    match Lexer::new("foo bar").tokenize_checked() {
        Some(Err(VmLexerError::InvalidToken(text))) => assert_eq!(text, "foo"),
        _ => panic!("expected an invalid token"),
    }
    match Lexer::new("push a8\n").tokenize_checked() {
        Some(Ok(tokens)) => assert_eq!(
            tokens,
            vec![VmToken::Instruction(InstructionType::Push), VmToken::Register(RegisterType::A8), VmToken::NewLine]
        ),
        _ => panic!("expected tokens"),
    }
}

#[test]
fn machine_run_messages() {
    assert_eq!(Address(255).message(), "0xff");
    assert_eq!(Address(0).message(), "0x0");
    assert_eq!(
        DecoderError::InvalidOpCode(7).message(),
        "Trying to decode invalid op code: 7"
    );
    assert_eq!(
        DecoderError::InvalidIp(Address(255)).message(),
        "Trying to get instruction length from invalid instruction pointer: 0xff"
    );
    assert_eq!(
        DecoderError::InvalidIl(Address(0), 2).message(),
        "Trying to get instruction data from invalid instruction length: 2, with instruction pointer: 0x0"
    );
    assert_eq!(
        InstructionError::InvalidSubOpCode(16, 9).message(),
        "Trying to execute invalid sup op code. Main OP Code 16, Sub OP Code: 9"
    );
    assert_eq!(
        InstructionError::ArgumentParseError(ArgumentParseError::InvalidRegister(99)).message(),
        "no register is encoded as 99"
    );
    assert_eq!(
        RegisterFileError::NotGeneral(RegisterType::IP).message(),
        "instruction pointer is not a general register"
    );
    assert_eq!(
        ExecutionError::Instruction(InstructionError::MemoryError(MemoryError::OutOfRange(Address(16), 8)), 17)
            .message(),
        "Error occur while executing instruction: 8 bytes from 0x10 run past the memory, with opcode: 17"
    );
    assert_eq!(
        ExecutionError::Decoder(DecoderError::InvalidOpCode(1)).message(),
        "Trying to decode invalid op code: 1"
    );
}
