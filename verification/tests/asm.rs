use raion::compiler::asm_compiler::ASMCompiler;
use raion::compiler::CompilerError;
use raion::lexer::asm_lexer::ASMLexer;
use raion::lexer::LexerError;
use raion::location::{Location, WithLocation};
use raion::sin::{Attribute, SinSection};
use raion::token::asm_token::{ASMKeyword, ASMToken, AttributeToken, InstructionType, IntergerType};

fn at(value: ASMToken) -> WithLocation<ASMToken> {
    WithLocation::new(value, Location::new(0, 1, "test.rasm".to_string()))
}

fn lex(source: &str) -> Vec<WithLocation<ASMToken>> {
    match ASMLexer::new(source, "test.rasm".to_string()).tokenize() {
        Ok(tokens) => tokens,
        Err(e) => panic!("lexer failed: {e:?}"),
    }
}

fn hash(name: &str) -> u64 {
    xxhash_rust::xxh3::xxh3_64(name.as_bytes())
}

#[test]
fn lexer_reads_a_procedure() {
    let tokens = lex("@Public\nproc <main> -> {\n\"hi\"\n}\n");
    let values: Vec<ASMToken> = tokens.iter().map(|t| t.value().clone()).collect();
    assert_eq!(
        values,
        vec![
            ASMToken::Attribute(AttributeToken::Public),
            ASMToken::NewLine,
            ASMToken::Keyword(ASMKeyword::Proc),
            ASMToken::HashName("main".to_string()),
            ASMToken::Arrow,
            ASMToken::LCurly,
            ASMToken::NewLine,
            ASMToken::String("hi".to_string()),
            ASMToken::NewLine,
            ASMToken::RCurly,
            ASMToken::NewLine,
        ]
    );
}

#[test]
fn lexer_reads_labels_instructions_and_comments() {
    let tokens = lex("start: local // a comment\npushu64, - +");
    let values: Vec<ASMToken> = tokens.iter().map(|t| t.value().clone()).collect();
    assert_eq!(
        values,
        vec![
            ASMToken::Label("start".to_string()),
            ASMToken::Instruction(InstructionType::Local),
            ASMToken::NewLine,
            ASMToken::Instruction(InstructionType::PushU64),
            ASMToken::Comma,
            ASMToken::Minus,
            ASMToken::Plus,
        ]
    );
}

#[test]
fn lexer_reads_numbers_in_several_bases() {
    let tokens = lex("12 0x1f 0b101");
    let values: Vec<ASMToken> = tokens.iter().map(|t| t.value().clone()).collect();
    assert_eq!(
        values,
        vec![ASMToken::Interger(12), ASMToken::Interger(31), ASMToken::Interger(5)]
    );
}

#[test]
fn asm_lexer_rejects_unknown_character() {
    match ASMLexer::new("proc $", "test.rasm".to_string()).tokenize() {
        Err(LexerError::InvalidToken(text, _)) => assert_eq!(text, "$"),
        other => panic!("expected an invalid token, got {other:?}"),
    }
}

#[test]
fn lexer_rejects_unknown_attribute() {
    match ASMLexer::new("@Nothing", "test.rasm".to_string()).tokenize() {
        Err(LexerError::InvalidAttribute(text, _)) => assert_eq!(text, "Nothing"),
        other => panic!("expected an invalid attribute, got {other:?}"),
    }
}

#[test]
fn lexer_wants_closing_angle_bracket() {
    assert!(matches!(
        ASMLexer::new("<main", "test.rasm".to_string()).tokenize(),
        Err(LexerError::ExpectedEndAngelBracket(None, _))
    ));
}

#[test]
fn procedure_section_with_attribute_and_data() {
    let tokens = lex("@Public\nproc <main> -> {\n\"hi\"\n}\n");
    let (sections, data) = ASMCompiler::new(tokens).compile().ok().unwrap();
    assert_eq!(data, b"hi".to_vec());
    assert_eq!(sections.len(), 1);
    match &sections[0] {
        SinSection::Procedure(p) => {
            assert_eq!(p.hash, hash("main"));
            assert_ne!(p.hash, 0);
            assert_eq!(p.start, 0);
            assert_eq!(p.size, 2);
            assert_eq!(p.attributes.0.len(), 1);
            assert!(matches!(p.attributes.0[0], Attribute::Public));
        }
        other => panic!("expected a procedure, got {other:?}"),
    }
}

#[test]
fn second_procedure_starts_after_the_first() {
    let tokens = lex("proc <a> -> {\n\"abc\"\n}\nproc <b> -> {\n\"de\"\n}\n");
    let (sections, data) = ASMCompiler::new(tokens).compile().ok().unwrap();
    assert_eq!(data, b"abcde".to_vec());
    match (&sections[0], &sections[1]) {
        (SinSection::Procedure(a), SinSection::Procedure(b)) => {
            assert_eq!((a.hash, a.start, a.size), (hash("a"), 0, 3));
            assert_eq!((b.hash, b.start, b.size), (hash("b"), 3, 2));
            assert!(b.attributes.0.is_empty());
        }
        _ => panic!("expected two procedures"),
    }
}

#[test]
fn instructions_are_encoded_with_size_and_opcode() {
    let tokens = vec![
        at(ASMToken::Keyword(ASMKeyword::Proc)),
        at(ASMToken::HashName("f".to_string())),
        at(ASMToken::Arrow),
        at(ASMToken::LCurly),
        at(ASMToken::Instruction(InstructionType::Local)),
        at(ASMToken::Interger(5)),
        at(ASMToken::IntergerType(IntergerType::U16)),
        at(ASMToken::NewLine),
        at(ASMToken::Instruction(InstructionType::PushU64)),
        at(ASMToken::Interger(0x102)),
        at(ASMToken::IntergerType(IntergerType::U64)),
        at(ASMToken::NewLine),
        at(ASMToken::RCurly),
    ];
    let (sections, data) = ASMCompiler::new(tokens).compile().ok().unwrap();
    assert_eq!(
        data,
        vec![5, 80, 0, 5, 0, 11, 19, 0, 2, 1, 0, 0, 0, 0, 0, 0]
    );
    match &sections[0] {
        SinSection::Procedure(p) => assert_eq!((p.start, p.size), (0, 16)),
        _ => panic!("expected a procedure"),
    }
}

#[test]
fn retl_and_loados_take_a_u16() {
    let tokens = vec![
        at(ASMToken::Keyword(ASMKeyword::Proc)),
        at(ASMToken::HashName("f".to_string())),
        at(ASMToken::Arrow),
        at(ASMToken::LCurly),
        at(ASMToken::Instruction(InstructionType::RetL)),
        at(ASMToken::Interger(0x0203)),
        at(ASMToken::IntergerType(IntergerType::U16)),
        at(ASMToken::NewLine),
        at(ASMToken::Instruction(InstructionType::LoadOs)),
        at(ASMToken::Interger(1)),
        at(ASMToken::IntergerType(IntergerType::U16)),
        at(ASMToken::NewLine),
        at(ASMToken::RCurly),
    ];
    let (_, data) = ASMCompiler::new(tokens).compile().ok().unwrap();
    assert_eq!(data, vec![5, 81, 0, 3, 2, 5, 82, 0, 1, 0]);
}

#[test]
fn instruction_line_runs_to_the_end_of_the_line() {
    let tokens = vec![
        at(ASMToken::Keyword(ASMKeyword::Proc)),
        at(ASMToken::HashName("f".to_string())),
        at(ASMToken::Arrow),
        at(ASMToken::LCurly),
        at(ASMToken::Instruction(InstructionType::LoadOs)),
        at(ASMToken::Interger(1)),
        at(ASMToken::IntergerType(IntergerType::U16)),
        at(ASMToken::RCurly),
    ];
    assert!(matches!(
        ASMCompiler::new(tokens).compile(),
        Err(CompilerError::UnexpectedToken(None))
    ));
}

#[test]
fn instruction_with_wrong_argument_type_is_rejected() {
    let tokens = vec![
        at(ASMToken::Keyword(ASMKeyword::Proc)),
        at(ASMToken::HashName("f".to_string())),
        at(ASMToken::Arrow),
        at(ASMToken::LCurly),
        at(ASMToken::Instruction(InstructionType::Local)),
        at(ASMToken::Interger(5)),
        at(ASMToken::IntergerType(IntergerType::U64)),
        at(ASMToken::RCurly),
    ];
    assert!(matches!(
        ASMCompiler::new(tokens).compile(),
        Err(CompilerError::InvalidArgument(_))
    ));
}

#[test]
fn instruction_from_source_text_has_no_typed_argument() {
    let tokens = lex("proc <f> -> {\nlocal 5\n}\n");
    assert!(matches!(
        ASMCompiler::new(tokens).compile(),
        Err(CompilerError::InvalidArgument(_))
    ));
}

#[test]
fn label_defined_twice_is_rejected() {
    let tokens = lex("proc <f> -> {\nhere:\nhere:\n}\n");
    match ASMCompiler::new(tokens).compile() {
        Err(CompilerError::MultipleLabel(name, _)) => assert_eq!(name, "here"),
        other => panic!("expected a repeated label, got {other:?}"),
    }
}

#[test]
fn missing_closing_brace_is_reported() {
    let tokens = lex("proc <f> -> {\n\"x\"\n");
    assert!(matches!(
        ASMCompiler::new(tokens).compile(),
        Err(CompilerError::UnexpectedToken(None))
    ));
}

#[test]
fn stray_token_at_top_level_is_reported() {
    let tokens = lex("vproc");
    match ASMCompiler::new(tokens).compile() {
        Err(CompilerError::UnexpectedToken(Some(t))) => {
            assert_eq!(t.value(), &ASMToken::Keyword(ASMKeyword::VProc))
        }
        other => panic!("expected an unexpected token, got {other:?}"),
    }
}

#[test]
fn interface_with_members_and_accept_list() {
    let tokens = lex("@Accept(<x>, <y>)\ninterface <i> -> [\n@Static\nvproc <m>\nvproc <n>\n]\n");
    let (sections, data) = ASMCompiler::new(tokens).compile().ok().unwrap();
    assert!(data.is_empty());
    match &sections[0] {
        SinSection::Interface(i) => {
            assert_eq!(i.hash, hash("i"));
            match &i.attributes.0[..] {
                [Attribute::Accept(hs)] => assert_eq!(hs, &vec![hash("x"), hash("y")]),
                other => panic!("unexpected attributes {other:?}"),
            }
            assert_eq!(i.vprocs.len(), 2);
            assert_eq!(i.vprocs[0].hash, hash("m"));
            assert!(matches!(i.vprocs[0].attributes.0[..], [Attribute::Static]));
            assert_eq!(i.vprocs[1].hash, hash("n"));
            assert!(i.vprocs[1].attributes.0.is_empty());
        }
        other => panic!("expected an interface, got {other:?}"),
    }
}

#[test]
fn structure_with_fields_and_procedures() {
    let tokens = lex(
        "@Implemented(<i>)\nstruct <s> -> [\n@Private\nfield <a>\n@Return(<r>)\nproc <p> -> {\n\"z\"\n}\n]\n",
    );
    let (sections, data) = ASMCompiler::new(tokens).compile().ok().unwrap();
    assert_eq!(data, b"z".to_vec());
    match &sections[0] {
        SinSection::Structure(s) => {
            assert_eq!(s.hash, hash("s"));
            assert!(matches!(s.attributes.0[..], [Attribute::Implemented(h)] if h == hash("i")));
            assert_eq!(s.fields.len(), 1);
            assert_eq!(s.fields[0].hash, hash("a"));
            assert!(matches!(s.fields[0].attributes.0[..], [Attribute::Private]));
            assert_eq!(s.procedures.len(), 1);
            let p = &s.procedures[0];
            assert_eq!((p.hash, p.start, p.size), (hash("p"), 0, 1));
            assert!(matches!(p.attributes.0[..], [Attribute::Return(h)] if h == hash("r")));
        }
        other => panic!("expected a structure, got {other:?}"),
    }
}

#[test]
fn attribute_arguments_need_brackets() {
    let tokens = lex("@Contain <c>\nproc <p> -> {\n}\n");
    match ASMCompiler::new(tokens).compile() {
        Err(CompilerError::UnexpectedToken(Some(t))) => {
            assert_eq!(t.value(), &ASMToken::HashName("c".to_string()))
        }
        other => panic!("expected an unexpected token, got {other:?}"),
    }
}

#[test]
fn overwrite_attribute_carries_a_hash() {
    let tokens = lex("@Overwrite(<o>)\nproc <p> -> {\n}\n");
    let (sections, _) = ASMCompiler::new(tokens).compile().ok().unwrap();
    match &sections[0] {
        SinSection::Procedure(p) => {
            assert!(matches!(p.attributes.0[..], [Attribute::Overwrite(h)] if h == hash("o")));
            assert_eq!(p.size, 0);
        }
        _ => panic!("expected a procedure"),
    }
}
