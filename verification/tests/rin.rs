use raion::compiler::rin_compiler::generator::GeneratorError;
use raion::compiler::rin_compiler::{parse_supported, BinaryOperator, Path, RinCompiler, Type};
use raion::compiler::CompilerError;
use raion::lexer::rin_lexer::RinLexer;
use raion::lexer::LexerError;
use raion::location::{Location, WithLocation};
use raion::manager::{AsmFailure, CompilerManager, SingleUseCompiler};
use raion::token::rin_token::{Keyword, Operator, PrimitiveType, RinToken};

fn lex(source: &str) -> Vec<WithLocation<RinToken>> {
    match RinLexer::new(source, "main.rin".to_string()).tokenize() {
        Ok(tokens) => tokens,
        Err(e) => panic!("lexer failed: {e:?}"),
    }
}

fn tok(value: RinToken) -> WithLocation<RinToken> {
    WithLocation::new(value, Location::new(0, 1, "main.rin".to_string()))
}

fn ident(name: &str) -> WithLocation<RinToken> {
    tok(RinToken::Identifier(name.to_string()))
}

/// Parses and generates `tokens` as the file whose procedures go under `app`.
fn generate_tokens(tokens: Vec<WithLocation<RinToken>>) -> Result<String, GeneratorError> {
    assert!(parse_supported(&tokens));
    let owner = Path::new("app");
    let mut compiler = RinCompiler::new(tokens, &owner);
    match compiler.parse() {
        Ok(()) => {}
        Err(e) => panic!("parser failed: {e:?}"),
    }
    compiler.generate()
}

fn generate(source: &str) -> Result<String, GeneratorError> {
    generate_tokens(lex(source))
}

fn parse_error(source: &str) -> CompilerError<RinToken> {
    let tokens = lex(source);
    assert!(parse_supported(&tokens));
    let owner = Path::new("app");
    let mut compiler = RinCompiler::new(tokens, &owner);
    match compiler.parse() {
        Ok(()) => panic!("expected a parse error"),
        Err(e) => e,
    }
}

#[test]
fn lexer_reads_a_procedure_header() {
    let values: Vec<RinToken> = lex("proc main(u8 x): u64 -> { return x; } // done")
        .iter()
        .map(|t| t.value().clone())
        .collect();
    assert_eq!(
        values,
        vec![
            RinToken::Keyword(Keyword::Procedure),
            RinToken::Identifier("main".to_string()),
            RinToken::LRoundBracket,
            RinToken::Type(PrimitiveType::U8),
            RinToken::Identifier("x".to_string()),
            RinToken::RRoundBracket,
            RinToken::Colon,
            RinToken::Type(PrimitiveType::U64),
            RinToken::Arrow,
            RinToken::LCurly,
            RinToken::Keyword(Keyword::Return),
            RinToken::Identifier("x".to_string()),
            RinToken::Semicolon,
            RinToken::RCurly,
        ]
    );
}

#[test]
fn lexer_reads_operators_strings_and_paths() {
    let values: Vec<RinToken> = lex("a.b = 1_0 * \"s\\n\" / 2 - 3 + c, let")
        .iter()
        .map(|t| t.value().clone())
        .collect();
    assert_eq!(
        values,
        vec![
            RinToken::Identifier("a".to_string()),
            RinToken::Dot,
            RinToken::Identifier("b".to_string()),
            RinToken::Equals,
            RinToken::Interger(10),
            RinToken::Operator(Operator::Multiply),
            RinToken::String("s\n".to_string()),
            RinToken::Operator(Operator::Divide),
            RinToken::Interger(2),
            RinToken::Operator(Operator::Subtract),
            RinToken::Interger(3),
            RinToken::Operator(Operator::Add),
            RinToken::Identifier("c".to_string()),
            RinToken::Comma,
            RinToken::Identifier("let".to_string()),
        ]
    );
}

#[test]
fn rin_lexer_rejects_unknown_character() {
    match RinLexer::new("proc #", "main.rin".to_string()).tokenize() {
        Err(LexerError::InvalidToken(text, _)) => assert_eq!(text, "#"),
        other => panic!("expected an invalid token, got {other:?}"),
    }
}

#[test]
fn lexer_wants_closing_quote() {
    assert!(matches!(
        RinLexer::new("\"abc", "main.rin".to_string()).tokenize(),
        Err(LexerError::ExpectedEndDoubleQuote(None, _))
    ));
}

#[test]
fn lexer_rejects_empty_hex_number() {
    assert!(matches!(
        RinLexer::new("0x", "main.rin".to_string()).tokenize(),
        Err(LexerError::InvalidInterger(_))
    ));
}

#[test]
fn sum_of_two_literals() {
    assert_eq!(
        generate("proc main(): u64 -> {\n return 1 u64 + 2 u64;\n}\n").ok().unwrap(),
        "proc app$main -> {\n   enter 0\n   mov a64, 1\n   savr a64\n   mov a64, 2\n   mov b64, a64\n   restr a64\n   add a64, b64\n   leave\n   ret\n}\n"
    );
}

#[test]
fn parameter_is_stored_and_loaded() {
    assert_eq!(
        generate("proc f(u64 x): u64 -> { return x; }").ok().unwrap(),
        "proc app$f -> {\n   enter 8\n   larg a64, 0\n   mov [sp + 0], a64\n   mov a64, [sp + 0]\n   leave\n   ret\n}\n"
    );
}

#[test]
fn operators_bind_by_precedence() {
    assert_eq!(
        generate("proc m(): u8 -> { return 1 u8 - 2 u8 * 3 u8; }").ok().unwrap(),
        "proc app$m -> {\n   enter 0\n   mov a8, 1\n   savr a64\n   mov a8, 2\n   savr a64\n   mov a8, 3\n   mov b64, a64\n   restr a64\n   mul a64, b64\n   mov b64, a64\n   restr a64\n   sub a64, b64\n   leave\n   ret\n}\n"
    );
}

#[test]
fn calls_pass_arguments_and_use_the_full_name() {
    assert_eq!(
        generate(
            "proc add(u64 a, u32 b): u64 -> { return a; }\nproc main(): u64 -> { return add(1 u64, 2 u32); }"
        )
        .ok()
        .unwrap(),
        "proc app$add -> {\n   enter 12\n   larg a64, 0\n   mov [sp + 0], a64\n   larg a64, 1\n   mov [sp + 8], a32\n   mov a64, [sp + 0]\n   leave\n   ret\n}\nproc app$main -> {\n   enter 0\n   mov a64, 1\n   arg 0, a64\n   mov a32, 2\n   arg 1, a64\n   call app$add\n   leave\n   ret\n}\n"
    );
}

#[test]
fn call_as_statement_and_division() {
    assert_eq!(
        generate("proc g(): u16 -> { g(); return 8 u16 / 2 u16; }").ok().unwrap(),
        "proc app$g -> {\n   enter 0\n   call app$g\n   mov a16, 8\n   savr a64\n   mov a16, 2\n   mov b64, a64\n   restr a64\n   div a64, b64\n   leave\n   ret\n}\n"
    );
}

#[test]
fn local_variable_declared_changed_and_returned() {
    let tokens = vec![
        tok(RinToken::Keyword(Keyword::Procedure)),
        ident("main"),
        tok(RinToken::LRoundBracket),
        tok(RinToken::RRoundBracket),
        tok(RinToken::Colon),
        tok(RinToken::Type(PrimitiveType::U64)),
        tok(RinToken::Arrow),
        tok(RinToken::LCurly),
        tok(RinToken::Keyword(Keyword::Let)),
        ident("y"),
        tok(RinToken::Equals),
        tok(RinToken::Interger(3)),
        tok(RinToken::Type(PrimitiveType::U64)),
        tok(RinToken::Semicolon),
        ident("y"),
        tok(RinToken::Equals),
        tok(RinToken::Interger(4)),
        tok(RinToken::Type(PrimitiveType::U64)),
        tok(RinToken::Semicolon),
        tok(RinToken::Keyword(Keyword::Return)),
        ident("y"),
        tok(RinToken::Semicolon),
        tok(RinToken::RCurly),
    ];
    assert_eq!(
        generate_tokens(tokens).ok().unwrap(),
        "proc app$main -> {\n   enter 8\n   mov a64, 3\n   mov [sp + 0], a64\n   mov a64, 4\n   mov [sp + 0], a64\n   mov a64, [sp + 0]\n   leave\n   ret\n}\n"
    );
}

#[test]
fn boolean_literal_is_a_byte() {
    let tokens = vec![
        tok(RinToken::Keyword(Keyword::Procedure)),
        ident("t"),
        tok(RinToken::LRoundBracket),
        tok(RinToken::RRoundBracket),
        tok(RinToken::Colon),
        tok(RinToken::Type(PrimitiveType::Bool)),
        tok(RinToken::Arrow),
        tok(RinToken::LCurly),
        tok(RinToken::Keyword(Keyword::Return)),
        tok(RinToken::Keyword(Keyword::True)),
        tok(RinToken::Semicolon),
        tok(RinToken::RCurly),
    ];
    assert_eq!(
        generate_tokens(tokens).ok().unwrap(),
        "proc app$t -> {\n   enter 0\n   mov a8, 1\n   leave\n   ret\n}\n"
    );
}

#[test]
fn wrong_return_type_is_reported() {
    match generate("proc main(): u32 -> { return 1 u64; }") {
        Err(GeneratorError::UnexpectedType { expected, unexpected }) => {
            assert_eq!(*expected.value(), Type::U32);
            assert_eq!(*unexpected.value(), Type::U64);
        }
        _ => panic!("expected a type error"),
    }
}

#[test]
fn operands_of_different_types_are_reported() {
    match generate("proc main(): u64 -> { return 1 u64 + 2 u8; }") {
        Err(GeneratorError::UnexpectedType { expected, unexpected }) => {
            assert_eq!(*expected.value(), Type::U64);
            assert_eq!(*unexpected.value(), Type::U8);
        }
        _ => panic!("expected a type error"),
    }
}

#[test]
fn undefined_variable_is_reported() {
    match generate("proc main(): u64 -> { return z; }") {
        Err(GeneratorError::UndefinedVariable(name)) => assert_eq!(name.value(), "z"),
        _ => panic!("expected an undefined variable"),
    }
}

#[test]
fn undefined_procedure_is_reported() {
    match generate("proc main(): u64 -> { return h(); }") {
        Err(GeneratorError::UndefinedProcedure(path)) => assert_eq!(path.value().dotted(), "h"),
        _ => panic!("expected an undefined procedure"),
    }
}

#[test]
fn argument_of_wrong_type_is_reported() {
    match generate("proc f(u8 a): u8 -> { return a; }\nproc main(): u8 -> { return f(1 u16); }") {
        Err(GeneratorError::UnexpectedType { expected, unexpected }) => {
            assert_eq!(*expected.value(), Type::U8);
            assert_eq!(*unexpected.value(), Type::U16);
        }
        _ => panic!("expected a type error"),
    }
}

#[test]
fn import_of_unknown_module_is_reported() {
    match generate("import std.io;\nproc main(): u64 -> { return 1 u64; }") {
        Err(GeneratorError::UndefinedModule(path)) => assert_eq!(path.dotted(), "std.io"),
        _ => panic!("expected an undefined module"),
    }
}

#[test]
fn import_of_own_procedure_is_accepted() {
    assert_eq!(
        generate("import main;\nmodule m;\nproc main(): u64 -> { return 1 u64; }").ok().unwrap(),
        "proc app$main -> {\n   enter 0\n   mov a64, 1\n   leave\n   ret\n}\n"
    );
}

#[test]
fn missing_colon_is_a_parse_error() {
    match parse_error("proc main() u64 -> { }") {
        CompilerError::UnexpectedToken(Some(t)) => {
            assert_eq!(t.value(), &RinToken::Type(PrimitiveType::U64))
        }
        other => panic!("unexpected error {other:?}"),
    }
}

#[test]
fn truncated_file_is_a_parse_error() {
    assert!(matches!(parse_error("proc main("), CompilerError::UnexpectedToken(None)));
}

#[test]
fn top_level_statement_is_a_parse_error() {
    match parse_error("return 1 u64;") {
        CompilerError::UnexpectedToken(Some(t)) => {
            assert_eq!(t.value(), &RinToken::Keyword(Keyword::Return))
        }
        other => panic!("unexpected error {other:?}"),
    }
}

#[test]
fn literal_needs_a_type() {
    match parse_error("proc main(): u64 -> { return 1; }") {
        CompilerError::UnexpectedToken(Some(t)) => assert_eq!(t.value(), &RinToken::Semicolon),
        other => panic!("unexpected error {other:?}"),
    }
}

#[test]
fn signed_literal_and_trailing_import_are_not_supported() {
    assert!(!parse_supported(&lex("proc main(): i8 -> { return 1 i8; }")));
    assert!(!parse_supported(&lex("proc main(): u8 -> { return 1 u8; } import")));
    assert!(parse_supported(&lex("proc main(): u8 -> { return 1 u8; }")));
    assert!(parse_supported(&Vec::new()));
}

#[test]
fn paths_split_join_and_print() {
    let p = Path::new("pkg.mod");
    assert_eq!(p.len(), 2);
    assert_eq!(p.dotted(), "pkg.mod");
    assert_eq!(p.parse(), "pkg$mod");
    let joined = p.join(Path::new("f"));
    assert_eq!(joined.parse(), "pkg$mod$f");
    assert!(joined.starts_with(&Path::new("pkg")));
    assert!(!joined.starts_with(&Path::new("mod")));
    assert!(joined.same_path(&Path::new("pkg.mod.f")));
    assert!(!joined.same_path(&Path::new("pkg.mod")));
    assert_eq!(joined.import(&Path::new("pkg.mod")).dotted(), "mod.f");
    assert_eq!(joined.duplicate().dotted(), "pkg.mod.f");
}

#[test]
fn single_file_gets_a_start_procedure() {
    let owner = Path::new("app");
    let mut compiler = SingleUseCompiler::new(
        "main.rin".to_string(),
        "main.sin".to_string(),
        None,
        &owner,
        "pkg".to_string(),
    );
    compiler.set_buffer("proc main(): u64 -> { return 1 u64; }".to_string());
    assert_eq!(compiler.output(), "main.sin");
    assert!(compiler.output_asm().is_none());
    assert_eq!(
        compiler.generate_asm().ok().unwrap(),
        "proc app$main -> {\n   enter 0\n   mov a64, 1\n   leave\n   ret\n}\nproc start -> {\n   call pkg$main\n   exit a64\n}\n"
    );
}

#[test]
fn single_file_without_main_is_rejected() {
    let owner = Path::new("app");
    let mut compiler = SingleUseCompiler::new(
        "lib.rin".to_string(),
        "lib.sin".to_string(),
        Some("lib.rasm".to_string()),
        &owner,
        "pkg".to_string(),
    );
    compiler.set_buffer("proc other(): u64 -> { return 1 u64; }".to_string());
    assert!(matches!(compiler.generate_asm(), Err(AsmFailure::NoMain)));
}

#[test]
fn single_file_reports_each_stage() {
    let owner = Path::new("app");
    let mut compiler =
        SingleUseCompiler::new("a.rin".to_string(), "a.sin".to_string(), None, &owner, "p".to_string());
    compiler.set_buffer("proc ?".to_string());
    assert!(matches!(compiler.generate_asm(), Err(AsmFailure::Lexer(LexerError::InvalidToken(_, _)))));
    compiler.set_buffer("proc main".to_string());
    assert!(matches!(compiler.generate_asm(), Err(AsmFailure::Parser(CompilerError::UnexpectedToken(None)))));
    compiler.set_buffer("proc main(): u64 -> { return q; }".to_string());
    assert!(matches!(
        compiler.generate_asm(),
        Err(AsmFailure::Generator(GeneratorError::UndefinedVariable(_)))
    ));
}

fn package_file(text: &str, name: &str, module: &str) -> (String, String, Path) {
    (text.to_string(), name.to_string(), Path::new(module))
}

#[test]
fn package_files_call_each_other_through_imports() {
    let mut manager = CompilerManager::new("pkg".to_string());
    manager
        .parse_files(vec![
            package_file(
                "import pkg.util;\nproc main(): u64 -> { return util.two(); }",
                "src/main.rin",
                "pkg.main",
            ),
            package_file("proc two(): u64 -> { return 2 u64; }", "src/util.rin", "pkg.util"),
        ])
        .ok()
        .unwrap();
    let headers = manager.collect_function();
    assert_eq!(headers.len(), 2);
    assert_eq!(headers[0].real_path.dotted(), "pkg.main.main");
    assert_eq!(headers[1].callable_path.dotted(), "pkg.util.two");
    assert_eq!(
        manager.generate_asm().ok().unwrap(),
        "proc pkg$main$main -> {\n   enter 0\n   call pkg$util$two\n   leave\n   ret\n}\nproc pkg$util$two -> {\n   enter 0\n   mov a64, 2\n   leave\n   ret\n}\nproc start -> {\n   call pkg$main$main\n   exit a64\n}\n"
    );
}

#[test]
fn package_without_main_module_is_rejected() {
    let mut manager = CompilerManager::new("pkg".to_string());
    manager
        .parse_files(vec![package_file(
            "proc main(): u64 -> { return 1 u64; }",
            "src/other.rin",
            "pkg.other",
        )])
        .ok()
        .unwrap();
    assert!(matches!(manager.generate_asm(), Err(AsmFailure::NoMain)));
}

#[test]
fn package_reports_the_first_bad_file() {
    let mut manager = CompilerManager::new("pkg".to_string());
    let result = manager.parse_files(vec![
        package_file("proc main(): u64 -> { return 1 u64; }", "src/main.rin", "pkg.main"),
        package_file("proc broken(", "src/broken.rin", "pkg.broken"),
        package_file("proc $", "src/bad.rin", "pkg.bad"),
    ]);
    assert!(matches!(result, Err(AsmFailure::Parser(CompilerError::UnexpectedToken(None)))));
}

#[test]
fn package_reports_generation_errors() {
    let mut manager = CompilerManager::new("pkg".to_string());
    manager
        .parse_files(vec![package_file(
            "import pkg.missing;\nproc main(): u64 -> { return 1 u64; }",
            "src/main.rin",
            "pkg.main",
        )])
        .ok()
        .unwrap();
    match manager.generate_asm() {
        Err(AsmFailure::Generator(GeneratorError::UndefinedModule(p))) => {
            assert_eq!(p.dotted(), "pkg.missing")
        }
        _ => panic!("expected an undefined module"),
    }
}

#[test]
fn procedure_header_uses_the_full_path() {
    let tokens = lex("proc f(u8 a, bool b): u16 -> { return 1 u16; }");
    let owner = Path::new("x");
    let mut compiler = RinCompiler::new(tokens, &owner);
    compiler.parse().ok().unwrap();
    let ast = compiler.ast_owned();
    let header = ast.procedures[0].value().to_header(Path::new("pkg.m"));
    assert_eq!(header.real_path.dotted(), "pkg.m.f");
    assert_eq!(header.callable_path.dotted(), "pkg.m.f");
    assert_eq!(header.return_type, Type::U16);
    assert_eq!(header.parameters.len(), 2);
    assert_eq!(*header.parameters[1].value(), Type::Bool);
}

#[test]
fn dotted_text_reads_back() {
    for text in ["a.b.c", "main", "", "..x", "pkg."] {
        assert_eq!(Path::new(text).dotted(), text);
    }
    let p = Path::new("pkg").join(Path::new("util")).join(Path::new("f"));
    assert!(Path::new(&p.dotted()).same_path(&p));
}

#[test]
fn conversions_from_tokens() {
    assert_eq!(Type::from(PrimitiveType::U8), Type::U8);
    assert_eq!(Type::from(PrimitiveType::Bool), Type::Bool);
    assert_eq!(BinaryOperator::from(Operator::Subtract), BinaryOperator::Subtract);
    let t: Type = PrimitiveType::I64.into();
    assert_eq!(t, Type::I64);
}
