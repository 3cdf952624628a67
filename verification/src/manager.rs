//! Compiling one rin file into rasm text: lexing, parsing, writing the
//! procedures, then a `start` procedure that calls `main`.

use vstd::prelude::*;
use vstd::string::StringSliceAdditionalSpecFns;

use crate::chars::str_eq;
use crate::compiler::rin_compiler::generator::{
    gen_program, headers_view, package_header, GenErrorView, GenResult, Generator, GeneratorError,
    HeaderView, ProcedureHeader,
};
use crate::compiler::rin_compiler::{
    join_with, procedure_view, program_body, split_dots, ParseResult, Path, Procedure,
    ProcedureView, RinAst, RinAstView, RinCompiler, RinError,
};
use crate::compiler::CompilerError;
use crate::lexer::rin_lexer::{rin_lex, RinLexer};
use crate::lexer::{LexErrorView, LexState, LexerError};
use crate::location::{LocationView, WithLocation};
use crate::text::{string_append, string_push_str};
use crate::token::rin_token::RinToken;

verus! {

/// Why a file gave no rasm text.
pub enum AsmFailure {
    Lexer(LexerError),
    Parser(CompilerError<RinToken>),
    Generator(GeneratorError),
    NoMain,
}

/// What compiling a file gives, as plain values: the text, a failure, or a
/// panic (a case the parser or the generator does not support).
pub enum AsmOutcome {
    Text(Seq<char>),
    LexFailed(LexErrorView),
    ParseFailed(RinError),
    GenFailed(GenErrorView),
    NoMain,
    Panics,
}

/// Where the lexer starts.
pub open spec fn start_state() -> LexState {
    LexState { index: 0, row: 0, column: 1, saved: LocationView { file: Seq::empty(), row: 0, column: 0 } }
}

/// The syntax tree before anything is read.
pub open spec fn empty_ast() -> RinAstView {
    RinAstView { imports: seq![], modules: seq![], procedures: seq![] }
}

/// Whether a procedure is called `main`.
pub open spec fn has_main(procs: Seq<(ProcedureView, LocationView)>) -> bool {
    exists|k: int| 0 <= k < procs.len() && #[trigger] procs[k].0.name.0 == "main"@
}

/// The procedure that starts a program: it calls `entry` and exits with
/// its result.
pub open spec fn start_text(entry: Seq<Seq<char>>) -> Seq<char> {
    "proc start -> {\n"@ + "   call "@ + join_with(entry, '$') + "\n"@ + "   exit a64\n"@ + "}\n"@
}

/// The rasm text of the rin source `src` of file `file`, whose procedures
/// go under `owner`, in the package `package`.
pub open spec fn single_use_asm(
    src: Seq<u8>,
    file: Seq<char>,
    owner: Seq<Seq<char>>,
    package: Seq<char>,
) -> AsmOutcome {
    match rin_lex(src, file, start_state()) {
        Err(e) => AsmOutcome::LexFailed(e),
        Ok(toks) => match program_body(toks, 0, empty_ast()) {
            ParseResult::Panics => AsmOutcome::Panics,
            ParseResult::Failed(e) => AsmOutcome::ParseFailed(e),
            ParseResult::Parsed(ast, _) => match gen_program(ast, owner, seq![]) {
                GenResult::Panics => AsmOutcome::Panics,
                GenResult::Failed(e) => AsmOutcome::GenFailed(e),
                GenResult::Generated(text) => if has_main(ast.procedures) {
                    AsmOutcome::Text(text + start_text(split_dots(package) + seq!["main"@]))
                } else {
                    AsmOutcome::NoMain
                },
            },
        },
    }
}

/// Whether a procedure is called `main`.
fn has_main_procedure(procs: &Vec<WithLocation<Procedure>>) -> (r: bool)
    ensures
        r == has_main(procs@.map_values(
            |p: WithLocation<Procedure>| (procedure_view(p.value), p.location@),
        )),
{
    let ghost pv = procs@.map_values(
        |p: WithLocation<Procedure>| (procedure_view(p.value), p.location@),
    );
    let mut k: usize = 0;
    while k < procs.len()
        invariant
            pv == procs@.map_values(
                |p: WithLocation<Procedure>| (procedure_view(p.value), p.location@),
            ),
            k <= procs@.len(),
            forall|j: int| 0 <= j < k ==> pv[j].0.name.0 != "main"@,
        decreases procs@.len() - k,
    {
        assert(pv[k as int].0.name.0 == procs@[k as int].value.name.value@);
        if str_eq(procs[k].value.name.value.as_str(), "main") {
            return true;
        }
        k = k + 1;
    }
    false
}

/// Compiles one rin file.
pub struct SingleUseCompiler<'b> {
    source_file: String,
    output: String,
    owner_path: &'b Path,
    buffer: String,
    output_asm: Option<String>,
    package_name: String,
}

impl<'b> SingleUseCompiler<'b> {
    /// The source text.
    pub closed spec fn source(&self) -> Seq<u8> {
        crate::hash::name_bytes(self.buffer@)
    }

    /// The name of the source file.
    pub closed spec fn file_name(&self) -> Seq<char> {
        self.source_file@
    }

    /// The path the file's procedures go under.
    pub closed spec fn owner(&self) -> Seq<Seq<char>> {
        self.owner_path@
    }

    /// The name of the package.
    pub closed spec fn package(&self) -> Seq<char> {
        self.package_name@
    }

    /// Where the compiled program goes.
    pub closed spec fn output_file(&self) -> Seq<char> {
        self.output@
    }

    /// Where the rasm text goes, if anywhere.
    pub closed spec fn asm_file(&self) -> Option<Seq<char>> {
        match self.output_asm {
            Some(s) => Some(s@),
            None => None,
        }
    }

    pub fn new(
        source_file: String,
        output: String,
        output_asm: Option<String>,
        owner_path: &'b Path,
        package_name: String,
    ) -> (r: SingleUseCompiler<'b>)
        ensures
            r.file_name() == source_file@,
            r.owner() == owner_path@,
            r.package() == package_name@,
            r.output_file() == output@,
            r.asm_file() == (match output_asm {
                Some(s) => Some(s@),
                None => None::<Seq<char>>,
            }),
    {
        let r = Self {
            source_file,
            owner_path,
            output,
            output_asm,
            package_name,
            buffer: String::new(),
        };
        r
    }

    /// Takes the source text.
    pub fn set_buffer(&mut self, text: String)
        ensures
            final(self).source() == crate::hash::name_bytes(text@),
            final(self).file_name() == old(self).file_name(),
            final(self).owner() == old(self).owner(),
            final(self).package() == old(self).package(),
            final(self).output_file() == old(self).output_file(),
            final(self).asm_file() == old(self).asm_file(),
    {
        self.buffer = text;
    }

    /// Where the rasm text is written, if anywhere.
    pub fn output_asm(&self) -> (r: &Option<String>)
        ensures
            r matches Some(s) ==> self.asm_file() == Some(s@),
            r is None ==> self.asm_file() is None,
    {
        &self.output_asm
    }

    /// Where the compiled program is written.
    pub fn output(&self) -> (r: &String)
        ensures
            r@ == self.output_file(),
    {
        &self.output
    }

    /// The rasm text of the source: its procedures, then `start`.
    pub fn generate_asm(&mut self) -> (r: Result<String, AsmFailure>)
        requires
            old(self).source().len() + 2 < usize::MAX,
            !(single_use_asm(
                old(self).source(),
                old(self).file_name(),
                old(self).owner(),
                old(self).package(),
            ) is Panics),
        ensures
            final(self).source() == old(self).source(),
            final(self).file_name() == old(self).file_name(),
            final(self).owner() == old(self).owner(),
            final(self).package() == old(self).package(),
            final(self).output_file() == old(self).output_file(),
            final(self).asm_file() == old(self).asm_file(),
            match single_use_asm(
                old(self).source(),
                old(self).file_name(),
                old(self).owner(),
                old(self).package(),
            ) {
                AsmOutcome::Text(t) => r is Ok && r->Ok_0@ == t,
                AsmOutcome::LexFailed(e) => r matches Err(AsmFailure::Lexer(x)) && x@ == e,
                AsmOutcome::ParseFailed(e) => r matches Err(AsmFailure::Parser(x)) && x@ == e,
                AsmOutcome::GenFailed(e) => r matches Err(AsmFailure::Generator(x)) && x@ == e,
                AsmOutcome::NoMain => r matches Err(AsmFailure::NoMain),
                AsmOutcome::Panics => true,
            },
    {
        let text = self.buffer.as_str();
        assert(text.spec_bytes() == old(self).source());
        let lexer = RinLexer::new(text, self.source_file.clone());
        let tokens = match lexer.tokenize() {
            Ok(res) => res,
            Err(err) => {
                return Err(AsmFailure::Lexer(err));
            },
        };
        assert(crate::lexer::rin_lexer::token_views(tokens@) =~= crate::compiler::token_views(
            tokens@,
        ));
        let ghost toks = crate::compiler::token_views(tokens@);
        assert(rin_lex(old(self).source(), old(self).file_name(), start_state()) == Ok::<
            Seq<(crate::token::rin_token::RinTokenView, LocationView)>,
            LexErrorView,
        >(toks));
        let mut compiler = RinCompiler::new(tokens, self.owner_path);
        assert(compiler.ast() == empty_ast());
        assert(compiler.toks() == toks);
        match compiler.parse() {
            Ok(_) => {},
            Err(err) => {
                return Err(AsmFailure::Parser(err));
            },
        }
        assert(program_body(toks, 0, empty_ast()) == ParseResult::Parsed(
            compiler.ast(),
            compiler.pos(),
        ));
        let mut generated_asm = match compiler.generate() {
            Ok(res) => res,
            Err(err) => {
                return Err(AsmFailure::Generator(err));
            },
        };
        if !has_main_procedure(&compiler.program().procedures) {
            return Err(AsmFailure::NoMain);
        }
        let location = Path::new(self.package_name.as_str()).join(Path::new("main"));
        proof {
            reveal_strlit("main");
            crate::compiler::rin_compiler::lemma_split_no_dots("main"@);
        }
        string_push_str(&mut generated_asm, "proc start -> {\n");
        string_push_str(&mut generated_asm, "   call ");
        let name = location.parse();
        string_append(&mut generated_asm, &name);
        string_push_str(&mut generated_asm, "\n");
        string_push_str(&mut generated_asm, "   exit a64\n");
        string_push_str(&mut generated_asm, "}\n");
        Ok(generated_asm)
    }
}

/// What reading one rin file gives: its syntax tree, a failure, or a panic
/// (a case the parser does not support).
pub enum FileOutcome {
    Parsed(RinAstView),
    LexFailed(LexErrorView),
    ParseFailed(RinError),
    Panics,
}

/// The syntax tree of the rin source `src` of file `file`.
pub open spec fn parse_file(src: Seq<u8>, file: Seq<char>) -> FileOutcome {
    match rin_lex(src, file, start_state()) {
        Err(e) => FileOutcome::LexFailed(e),
        Ok(toks) => match program_body(toks, 0, empty_ast()) {
            ParseResult::Panics => FileOutcome::Panics,
            ParseResult::Failed(e) => FileOutcome::ParseFailed(e),
            ParseResult::Parsed(ast, _) => FileOutcome::Parsed(ast),
        },
    }
}

/// What reading the files of a package gives: each file's syntax tree with
/// its module path, or the first failure.
pub enum FilesOutcome {
    Parsed(Seq<(RinAstView, Seq<Seq<char>>)>),
    LexFailed(LexErrorView),
    ParseFailed(RinError),
    Panics,
}

/// The files `files` (source, file name, module path) read in order.
pub open spec fn parse_all(files: Seq<(Seq<u8>, Seq<char>, Seq<Seq<char>>)>) -> FilesOutcome
    decreases files.len(),
{
    if files.len() == 0 {
        FilesOutcome::Parsed(seq![])
    } else {
        match parse_all(files.drop_last()) {
            FilesOutcome::Parsed(done) => {
                let f = files.last();
                match parse_file(f.0, f.1) {
                    FileOutcome::Parsed(ast) => FilesOutcome::Parsed(done.push((ast, f.2))),
                    FileOutcome::LexFailed(e) => FilesOutcome::LexFailed(e),
                    FileOutcome::ParseFailed(e) => FilesOutcome::ParseFailed(e),
                    FileOutcome::Panics => FilesOutcome::Panics,
                }
            },
            other => other,
        }
    }
}

/// The headers of all procedures of a package, file after file.
pub open spec fn all_headers(files: Seq<(RinAstView, Seq<Seq<char>>)>) -> Seq<HeaderView>
    decreases files.len(),
{
    if files.len() == 0 {
        seq![]
    } else {
        all_headers(files.drop_last()) + files.last().0.procedures.map_values(
            |p: (ProcedureView, LocationView)| package_header(p.0, files.last().1),
        )
    }
}

/// The rasm text of the files, each written with `headers` callable.
pub open spec fn package_text(files: Seq<(RinAstView, Seq<Seq<char>>)>, headers: Seq<HeaderView>) -> GenResult<Seq<char>>
    decreases files.len(),
{
    if files.len() == 0 {
        GenResult::Generated(seq![])
    } else {
        match package_text(files.drop_last(), headers) {
            GenResult::Generated(t) => match gen_program(files.last().0, files.last().1, headers) {
                GenResult::Generated(u) => GenResult::Generated(t + u),
                GenResult::Failed(e) => GenResult::Failed(e),
                GenResult::Panics => GenResult::Panics,
            },
            other => other,
        }
    }
}

/// The full path of a package's entry: `<package>.main.main`.
pub open spec fn package_entry(package: Seq<char>) -> Seq<Seq<char>> {
    split_dots(package) + seq!["main"@, "main"@]
}

/// Whether some header has the full path `entry`.
pub open spec fn has_entry(headers: Seq<HeaderView>, entry: Seq<Seq<char>>) -> bool {
    exists|k: int| 0 <= k < headers.len() && #[trigger] headers[k].real_path == entry
}

/// The rasm text of a whole package: every file, then `start`, which calls
/// `main` of the module `main`.
pub open spec fn package_asm(files: Seq<(RinAstView, Seq<Seq<char>>)>, package: Seq<char>) -> AsmOutcome {
    let headers = all_headers(files);
    match package_text(files, headers) {
        GenResult::Panics => AsmOutcome::Panics,
        GenResult::Failed(e) => AsmOutcome::GenFailed(e),
        GenResult::Generated(t) => if has_entry(headers, package_entry(package)) {
            AsmOutcome::Text(t + start_text(package_entry(package)))
        } else {
            AsmOutcome::NoMain
        },
    }
}

/// A file's text, name and module path as plain values.
pub open spec fn source_view(f: (String, String, Path)) -> (Seq<u8>, Seq<char>, Seq<Seq<char>>) {
    (crate::hash::name_bytes(f.0@), f.1@, f.2@)
}

/// A parsed file and the module path its procedures go under.
pub struct CompiledFile {
    pub ast: RinAst,
    pub path: Path,
}

/// A parsed file as plain values.
pub open spec fn compiled_view(f: CompiledFile) -> (RinAstView, Seq<Seq<char>>) {
    (f.ast@, f.path@)
}

/// Reads one rin source into a syntax tree.
fn parse_source(text: &str, file: String) -> (r: Result<RinAst, AsmFailure>)
    requires
        text.spec_bytes().len() + 2 < usize::MAX,
        !(parse_file(text.spec_bytes(), file@) is Panics),
    ensures
        match parse_file(text.spec_bytes(), file@) {
            FileOutcome::Parsed(ast) => r matches Ok(a) && a@ == ast,
            FileOutcome::LexFailed(e) => r matches Err(AsmFailure::Lexer(x)) && x@ == e,
            FileOutcome::ParseFailed(e) => r matches Err(AsmFailure::Parser(x)) && x@ == e,
            FileOutcome::Panics => true,
        },
{
    let ghost file_name = file@;
    let lexer = RinLexer::new(text, file);
    let tokens = match lexer.tokenize() {
        Ok(res) => res,
        Err(err) => {
            return Err(AsmFailure::Lexer(err));
        },
    };
    assert(crate::lexer::rin_lexer::token_views(tokens@) =~= crate::compiler::token_views(
        tokens@,
    ));
    let ghost toks = crate::compiler::token_views(tokens@);
    assert(rin_lex(text.spec_bytes(), file_name, start_state()) == Ok::<
        Seq<(crate::token::rin_token::RinTokenView, LocationView)>,
        LexErrorView,
    >(toks));
    let owner = Path::new("");
    let mut compiler = RinCompiler::new(tokens, &owner);
    assert(compiler.ast() == empty_ast());
    match compiler.parse() {
        Ok(_) => {},
        Err(err) => {
            return Err(AsmFailure::Parser(err));
        },
    }
    Ok(compiler.ast_owned())
}

/// Once a prefix of the files fails, so do the files.
proof fn lemma_parse_prefix(files: Seq<(Seq<u8>, Seq<char>, Seq<Seq<char>>)>, k: int)
    requires
        0 <= k <= files.len(),
        !(parse_all(files.take(k)) is Parsed),
    ensures
        parse_all(files) == parse_all(files.take(k)),
    decreases files.len() - k,
{
    if k < files.len() {
        assert(files.take(k + 1).drop_last() =~= files.take(k));
        lemma_parse_prefix(files, k + 1);
    } else {
        assert(files.take(k) =~= files);
    }
}

/// Once a prefix of the files fails, so does the package's text.
proof fn lemma_text_prefix(files: Seq<(RinAstView, Seq<Seq<char>>)>, headers: Seq<HeaderView>, k: int)
    requires
        0 <= k <= files.len(),
        !(package_text(files.take(k), headers) is Generated),
    ensures
        package_text(files, headers) == package_text(files.take(k), headers),
    decreases files.len() - k,
{
    if k < files.len() {
        assert(files.take(k + 1).drop_last() =~= files.take(k));
        lemma_text_prefix(files, headers, k + 1);
    } else {
        assert(files.take(k) =~= files);
    }
}

/// Compiles all rin files of a package into one rasm text.
pub struct CompilerManager {
    package_name: String,
    forest: Vec<CompiledFile>,
    procedures: Vec<ProcedureHeader>,
}

impl CompilerManager {
    /// The files read, as plain values.
    pub closed spec fn files(&self) -> Seq<(RinAstView, Seq<Seq<char>>)> {
        self.forest@.map_values(|f: CompiledFile| compiled_view(f))
    }

    /// The name of the package.
    pub closed spec fn package(&self) -> Seq<char> {
        self.package_name@
    }

    /// The known procedures are those of the files read.
    pub closed spec fn wf(&self) -> bool {
        headers_view(self.procedures@) == all_headers(self.files())
    }

    pub fn new(package_name: String) -> (r: CompilerManager)
        ensures
            r.wf(),
            r.package() == package_name@,
            r.files() == Seq::<(RinAstView, Seq<Seq<char>>)>::empty(),
    {
        let r = CompilerManager { package_name, forest: Vec::new(), procedures: Vec::new() };
        assert(r.files() =~= Seq::<(RinAstView, Seq<Seq<char>>)>::empty());
        assert(headers_view(r.procedures@) =~= Seq::<HeaderView>::empty());
        r
    }

    /// Reads the package's files (text, file name, module path) in order,
    /// and then the headers of all their procedures.
    pub fn parse_files(&mut self, files: Vec<(String, String, Path)>) -> (r: Result<(), AsmFailure>)
        requires
            forall|i: int|
                0 <= i < files@.len() ==> #[trigger] source_view(files@[i]).0.len() + 2
                    < usize::MAX,
            !(parse_all(files@.map_values(|f: (String, String, Path)| source_view(f))) is Panics),
        ensures
            final(self).package() == old(self).package(),
            r is Err ==> final(self).files() == old(self).files() && final(self).wf() == old(
                self,
            ).wf(),
            match parse_all(files@.map_values(|f: (String, String, Path)| source_view(f))) {
                FilesOutcome::Parsed(fs) => r is Ok && final(self).files() == fs
                    && final(self).wf(),
                FilesOutcome::LexFailed(e) => r matches Err(AsmFailure::Lexer(x)) && x@ == e,
                FilesOutcome::ParseFailed(e) => r matches Err(AsmFailure::Parser(x)) && x@ == e,
                FilesOutcome::Panics => true,
            },
    {
        let ghost views = files@.map_values(|f: (String, String, Path)| source_view(f));
        let mut forest: Vec<CompiledFile> = Vec::new();
        assert(views.take(0) =~= Seq::<(Seq<u8>, Seq<char>, Seq<Seq<char>>)>::empty());
        assert(forest@.map_values(|f: CompiledFile| compiled_view(f)) =~= Seq::<
            (RinAstView, Seq<Seq<char>>),
        >::empty());
        let mut k: usize = 0;
        while k < files.len()
            invariant
                k <= files@.len(),
                views == files@.map_values(|f: (String, String, Path)| source_view(f)),
                forall|i: int|
                    0 <= i < files@.len() ==> #[trigger] source_view(files@[i]).0.len() + 2
                        < usize::MAX,
                !(parse_all(views) is Panics),
                parse_all(views.take(k as int)) == FilesOutcome::Parsed(
                    forest@.map_values(|f: CompiledFile| compiled_view(f)),
                ),
            decreases files@.len() - k,
        {
            let ghost before = forest@.map_values(|f: CompiledFile| compiled_view(f));
            assert(views.take(k + 1).drop_last() =~= views.take(k as int));
            assert(views.take(k + 1).last() == source_view(files@[k as int]));
            let file = &files[k];
            proof {
                if parse_file(views[k as int].0, views[k as int].1) is Panics {
                    lemma_parse_prefix(views, k + 1);
                }
            }
            match parse_source(file.0.as_str(), file.1.clone()) {
                Ok(ast) => {
                    forest.push(CompiledFile { ast, path: file.2.duplicate() });
                    assert(forest@.map_values(|f: CompiledFile| compiled_view(f)) =~= before.push(
                        compiled_view(forest@.last()),
                    ));
                },
                Err(e) => {
                    proof {
                        lemma_parse_prefix(views, k + 1);
                    }
                    return Err(e);
                },
            }
            k = k + 1;
        }
        assert(views.take(files@.len() as int) =~= views);
        self.forest = forest;
        self.procedures = self.collect_function();
        Ok(())
    }

    /// The headers of all procedures of the files read, each by its full path.
    pub fn collect_function(&self) -> (r: Vec<ProcedureHeader>)
        ensures
            headers_view(r@) == all_headers(self.files()),
    {
        let ghost files = self.files();
        let mut procedures: Vec<ProcedureHeader> = Vec::new();
        let mut k: usize = 0;
        while k < self.forest.len()
            invariant
                k <= self.forest@.len(),
                files == self.files(),
                headers_view(procedures@) == all_headers(files.take(k as int)),
            decreases self.forest@.len() - k,
        {
            let ast = &self.forest[k].ast;
            let ghost start = headers_view(procedures@);
            let ghost fk = files[k as int];
            assert(files.take(k + 1).drop_last() =~= files.take(k as int));
            assert(files.take(k + 1).last() == fk);
            let ghost own = fk.0.procedures.map_values(
                |p: (ProcedureView, LocationView)| package_header(p.0, fk.1),
            );
            let mut j: usize = 0;
            while j < ast.procedures.len()
                invariant
                    j <= ast.procedures@.len(),
                    k < self.forest@.len(),
                    ast == &self.forest@[k as int].ast,
                    fk == compiled_view(self.forest@[k as int]),
                    own == fk.0.procedures.map_values(
                        |p: (ProcedureView, LocationView)| package_header(p.0, fk.1),
                    ),
                    headers_view(procedures@) == start + own.take(j as int),
                decreases ast.procedures@.len() - j,
            {
                let ghost before = headers_view(procedures@);
                let header = ast.procedures[j].value.to_header(self.forest[k].path.duplicate());
                procedures.push(header);
                assert(headers_view(procedures@) =~= before.push(own[j as int]));
                assert(own.take(j + 1) =~= own.take(j as int).push(own[j as int]));
                j = j + 1;
            }
            assert(own.take(ast.procedures@.len() as int) =~= own);
            k = k + 1;
        }
        assert(files.take(self.forest@.len() as int) =~= files);
        procedures
    }

    /// The rasm text of the package: every file, then `start`.
    pub fn generate_asm(&mut self) -> (r: Result<String, AsmFailure>)
        requires
            old(self).wf(),
            !(package_asm(old(self).files(), old(self).package()) is Panics),
        ensures
            final(self).files() == old(self).files(),
            final(self).package() == old(self).package(),
            final(self).wf(),
            match package_asm(old(self).files(), old(self).package()) {
                AsmOutcome::Text(t) => r is Ok && r->Ok_0@ == t,
                AsmOutcome::GenFailed(e) => r matches Err(AsmFailure::Generator(x)) && x@ == e,
                AsmOutcome::NoMain => r matches Err(AsmFailure::NoMain),
                _ => true,
            },
    {
        let ghost files = self.files();
        let ghost headers = all_headers(files);
        let mut output = String::new();
        let mut k: usize = 0;
        while k < self.forest.len()
            invariant
                k <= self.forest@.len(),
                files == self.files(),
                headers == all_headers(files),
                headers_view(self.procedures@) == headers,
                !(package_text(files, headers) is Panics),
                package_text(files.take(k as int), headers) == GenResult::Generated(output@),
            decreases self.forest@.len() - k,
        {
            assert(files.take(k + 1).drop_last() =~= files.take(k as int));
            assert(files.take(k + 1).last() == files[k as int]);
            proof {
                if gen_program(files[k as int].0, files[k as int].1, headers) is Panics {
                    lemma_text_prefix(files, headers, k + 1);
                }
            }
            let generator = Generator::new();
            match generator.generate(&self.forest[k].ast, &self.forest[k].path, &self.procedures) {
                Ok(res) => {
                    string_append(&mut output, &res);
                },
                Err(err) => {
                    proof {
                        lemma_text_prefix(files, headers, k + 1);
                    }
                    return Err(AsmFailure::Generator(err));
                },
            }
            k = k + 1;
        }
        assert(files.take(self.forest@.len() as int) =~= files);
        let entry = Path::new(self.package_name.as_str()).join(Path::new("main")).join(
            Path::new("main"),
        );
        proof {
            reveal_strlit("main");
            crate::compiler::rin_compiler::lemma_split_no_dots("main"@);
            assert(entry@ =~= package_entry(self.package()));
        }
        let mut i: usize = 0;
        let mut found = false;
        while i < self.procedures.len()
            invariant
                i <= self.procedures@.len(),
                headers_view(self.procedures@) == headers,
                found ==> has_entry(headers, entry@),
                !found ==> forall|j: int| 0 <= j < i ==> headers[j].real_path != entry@,
            decreases self.procedures@.len() - i,
        {
            if !found && self.procedures[i].real_path.same_path(&entry) {
                assert(headers[i as int].real_path == entry@);
                found = true;
            }
            i = i + 1;
        }
        if !found {
            return Err(AsmFailure::NoMain);
        }
        string_push_str(&mut output, "proc start -> {\n");
        string_push_str(&mut output, "   call ");
        let name = entry.parse();
        string_append(&mut output, &name);
        string_push_str(&mut output, "\n");
        string_push_str(&mut output, "   exit a64\n");
        string_push_str(&mut output, "}\n");
        Ok(output)
    }
}

} // verus!
