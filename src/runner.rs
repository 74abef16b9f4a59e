use vstd::prelude::*;
use crate::renderer::{CodeBlock, CodeBlockModel};
use crate::terminal::{pop_char, push_char, without_last};

verus! {

/// Whether code blocks found in the output may be run.
#[derive(Debug, PartialEq, Eq, Structural, Clone, Copy)]
pub enum RunChoice {
    /// Run nothing.
    No,
    /// Ask which block to run.
    Ask,
    /// Run every block without asking.
    Force,
}

/// Unicode's White_Space characters, which `str::trim` removes.
pub open spec fn white_space(c: char) -> bool {
    let u = c as u32;
    (0x9 <= u <= 0xd) || u == 0x20 || u == 0x85 || u == 0xa0 || u == 0x1680 || (0x2000 <= u <= 0x200a)
        || u == 0x2028 || u == 0x2029 || u == 0x202f || u == 0x205f || u == 0x3000
}

/// `s` without its leading white space.
pub open spec fn trim_start_spec(s: Seq<char>) -> Seq<char>
    decreases s.len(),
{
    if s.len() > 0 && white_space(s[0]) {
        trim_start_spec(s.drop_first())
    } else {
        s
    }
}

/// `s` without its trailing white space.
pub open spec fn trim_end_spec(s: Seq<char>) -> Seq<char>
    decreases s.len(),
{
    if s.len() > 0 && white_space(s.last()) {
        trim_end_spec(s.drop_last())
    } else {
        s
    }
}

/// `s` without leading and trailing white space.
pub open spec fn trimmed(s: Seq<char>) -> Seq<char> {
    trim_end_spec(trim_start_spec(s))
}

/// Relies on `str::trim`: the longest leading and trailing runs of White_Space
/// characters are removed.
#[verifier::external_body]
fn trim(s: &str) -> (r: &str)
    ensures
        r@ == trimmed(s@),
{
    s.trim()
}

/// The collector's state as a mathematical value.
pub struct RunnerModel {
    /// Inside a code block.
    pub is_code: bool,
    /// No character but backticks, and after a fence what follows it, since
    /// the line began.
    pub is_newline: bool,
    /// Backticks at the start of the line, and after a fence what follows it.
    pub token: Seq<char>,
    /// The code blocks found so far, the last one still open when `is_code`.
    pub codes: Seq<CodeBlockModel>,
}

pub open spec fn starts_with_fence(t: Seq<char>) -> bool {
    t.len() >= 3 && t[0] == '`' && t[1] == '`' && t[2] == '`'
}

/// The block that a fence line `token` opens: its language is what follows
/// the fence, trimmed, if anything is left.
pub open spec fn opened_block(token: Seq<char>) -> CodeBlockModel {
    let l = trimmed(token.subrange(3, token.len() as int));
    CodeBlockModel {
        language: if l.len() > 0 {
            Some(l)
        } else {
            None
        },
        code: Seq::empty(),
    }
}

/// Blocks after the last one's code changes to `code`.
pub open spec fn with_last_code(codes: Seq<CodeBlockModel>, code: Seq<char>) -> Seq<CodeBlockModel> {
    codes.update(codes.len() - 1, CodeBlockModel { code, ..codes.last() })
}

/// A fence line opens a block, or closes the open one, which loses the `\n`
/// that ended its last line.
pub open spec fn switch_block(r: RunnerModel) -> RunnerModel {
    if !r.is_code {
        RunnerModel { is_code: true, codes: r.codes.push(opened_block(r.token)), ..r }
    } else {
        RunnerModel { is_code: false, codes: with_last_code(r.codes, without_last(r.codes.last().code)), ..r }
    }
}

/// The open block after `s` is added to its code.
pub open spec fn add_code(r: RunnerModel, s: Seq<char>) -> RunnerModel {
    RunnerModel { codes: with_last_code(r.codes, r.codes.last().code + s), ..r }
}

/// One character of the output. Outside code, backticks at the start of a
/// line may begin a fence, whose line then gives the language. Inside code,
/// backticks at the start of a line are held back: a line of three or more
/// closes the block, and otherwise they are code, like every other character.
pub open spec fn runner_step(r: RunnerModel, c: char) -> RunnerModel {
    if c == '`' {
        if r.is_newline {
            RunnerModel { token: r.token.push(c), ..r }
        } else if r.is_code {
            add_code(r, seq![c])
        } else {
            r
        }
    } else if c == '\n' {
        let r2 = if starts_with_fence(r.token) {
            switch_block(r)
        } else if r.is_code {
            add_code(r, r.token.push(c))
        } else {
            r
        };
        RunnerModel { token: Seq::empty(), is_newline: true, ..r2 }
    } else if r.is_code {
        RunnerModel { token: Seq::empty(), is_newline: false, ..add_code(r, r.token.push(c)) }
    } else if r.is_newline && starts_with_fence(r.token) {
        RunnerModel { token: r.token.push(c), ..r }
    } else {
        RunnerModel { is_newline: false, ..r }
    }
}

pub open spec fn runner_feed(r: RunnerModel, s: Seq<char>) -> RunnerModel
    decreases s.len(),
{
    if s.len() == 0 {
        r
    } else {
        runner_step(runner_feed(r, s.drop_last()), s.last())
    }
}

/// Collects the code blocks of generated markdown, to offer them to be run.
pub struct Runner {
    interactive_mode: RunChoice,
    is_code: bool,
    is_newline: bool,
    current_token: String,
    codes: Vec<CodeBlock>,
}

impl View for Runner {
    type V = RunnerModel;

    closed spec fn view(&self) -> RunnerModel {
        RunnerModel {
            is_code: self.is_code,
            is_newline: self.is_newline,
            token: self.current_token@,
            codes: self.codes@.map_values(|b: CodeBlock| b@),
        }
    }
}

impl Runner {
    pub closed spec fn wf(&self) -> bool {
        self.is_code ==> self.codes@.len() > 0
    }

    pub closed spec fn run_choice_spec(&self) -> RunChoice {
        self.interactive_mode
    }

    pub fn new(run_choice: RunChoice) -> (r: Runner)
        ensures
            r.wf(),
            r.run_choice_spec() == run_choice,
            r@ == (RunnerModel { is_code: false, is_newline: true, token: Seq::empty(), codes: Seq::empty() }),
    {
        let r = Runner {
            interactive_mode: run_choice,
            is_code: false,
            is_newline: true,
            current_token: String::new(),
            codes: Vec::new(),
        };
        assert(r@.codes =~= Seq::<CodeBlockModel>::empty());
        r
    }

    pub fn run_choice(&self) -> (r: RunChoice)
        ensures
            r == self.run_choice_spec(),
    {
        self.interactive_mode
    }

    /// The code blocks found so far.
    pub fn code_blocks(&self) -> (r: &Vec<CodeBlock>)
        ensures
            r@.map_values(|b: CodeBlock| b@) == self@.codes,
    {
        &self.codes
    }

    fn push_code(&mut self, text: &str)
        requires
            old(self).codes@.len() > 0,
        ensures
            final(self).wf() == old(self).wf(),
            final(self).interactive_mode == old(self).interactive_mode,
            final(self)@ == add_code(old(self)@, text@),
            final(self).codes@.len() == old(self).codes@.len(),
    {
        let b = self.codes.pop().unwrap();
        let mut code = b.code;
        code.append(text);
        self.codes.push(CodeBlock { language: b.language, code });
        assert(self@.codes =~= add_code(old(self)@, text@).codes);
    }

    /// The held-back backticks and `c` go to the open block's code.
    fn push_token_and_char(&mut self, c: char)
        requires
            old(self).codes@.len() > 0,
        ensures
            final(self).wf() == old(self).wf(),
            final(self).interactive_mode == old(self).interactive_mode,
            final(self)@ == (RunnerModel { token: Seq::empty(), ..add_code(old(self)@, old(self)@.token.push(c)) }),
            final(self).codes@.len() == old(self).codes@.len(),
    {
        let mut t = String::new();
        std::mem::swap(&mut t, &mut self.current_token);
        push_char(&mut t, c);
        self.push_code(t.as_str());
    }

    fn switch_code_block(&mut self)
        requires
            old(self).wf(),
            starts_with_fence(old(self)@.token),
        ensures
            final(self).wf(),
            final(self).interactive_mode == old(self).interactive_mode,
            final(self)@ == switch_block(old(self)@),
    {
        self.is_code = !self.is_code;
        if self.is_code {
            let n = self.current_token.as_str().unicode_len();
            let rest = self.current_token.as_str().substring_char(3, n);
            let language = trim(rest);
            let block = CodeBlock {
                language: if language.unicode_len() > 0 {
                    Some(String::from_str(language))
                } else {
                    None
                },
                code: String::new(),
            };
            self.codes.push(block);
            assert(self@.codes =~= switch_block(old(self)@).codes);
        } else {
            let b = self.codes.pop().unwrap();
            let mut code = b.code;
            pop_char(&mut code);
            self.codes.push(CodeBlock { language: b.language, code });
            assert(self@.codes =~= switch_block(old(self)@).codes);
        }
    }

    fn fence_started(&self) -> (r: bool)
        ensures
            r == starts_with_fence(self@.token),
    {
        let t = self.current_token.as_str();
        t.unicode_len() >= 3 && t.get_char(0) == '`' && t.get_char(1) == '`' && t.get_char(2) == '`'
    }

    fn step(&mut self, c: char)
        requires
            old(self).wf(),
        ensures
            final(self).wf(),
            final(self).interactive_mode == old(self).interactive_mode,
            final(self)@ == runner_step(old(self)@, c),
    {
        if c == '`' {
            if self.is_newline {
                push_char(&mut self.current_token, c);
            } else if self.is_code {
                self.push_code("`");
                proof {
                    reveal_strlit("`");
                }
                assert("`"@ =~= seq![c]);
            }
        } else if c == '\n' {
            if self.fence_started() {
                self.switch_code_block();
            } else if self.is_code {
                self.push_token_and_char(c);
            }
            self.current_token = String::new();
            self.is_newline = true;
        } else if self.is_code {
            self.push_token_and_char(c);
            self.is_newline = false;
        } else if self.is_newline && self.fence_started() {
            push_char(&mut self.current_token, c);
        } else {
            self.is_newline = false;
        }
    }

    /// Takes a fragment of the generated output.
    pub fn push(&mut self, text: &str)
        requires
            old(self).wf(),
        ensures
            final(self).wf(),
            final(self).run_choice_spec() == old(self).run_choice_spec(),
            final(self)@ == runner_feed(old(self)@, text@),
    {
        let ghost start = self@;
        let ghost s = text@;
        for c in it: text.chars()
            invariant
                self.wf(),
                self.interactive_mode == old(self).interactive_mode,
                it.seq() == s,
                self@ == runner_feed(start, s.take(it.index() as int)),
        {
            proof {
                assert(s.take(it.index() + 1).drop_last() =~= s.take(it.index() as int));
            }
            self.step(c);
        }
        assert(s.take(s.len() as int) =~= s);
    }
}


/// The kind of program that runs a code block.
#[derive(Debug, PartialEq, Eq, Structural, Clone, Copy)]
pub enum ProgramKind {
    /// A POSIX-like shell, given the code with `-c`.
    Shell,
    /// Nushell, given the code with `-c`.
    Nu,
    /// PowerShell, given the code with `-c`.
    PowerShell,
    /// The Rust compiler, then the compiled program.
    Rust,
    /// A Python 3 interpreter, given the code on its standard input.
    Python,
}

/// The program kind for a code block's language, as a fence names it.
pub open spec fn program_kind_spec(language: Seq<char>) -> Option<ProgramKind> {
    if language == "bash"@ || language == "sh"@ || language == "shell"@ || language == "zsh"@ {
        Some(ProgramKind::Shell)
    } else if language == "nu"@ {
        Some(ProgramKind::Nu)
    } else if language == "pwsh"@ || language == "powershell"@ {
        Some(ProgramKind::PowerShell)
    } else if language == "rust"@ || language == "rs"@ {
        Some(ProgramKind::Rust)
    } else if language == "py"@ || language == "python"@ {
        Some(ProgramKind::Python)
    } else {
        None
    }
}

fn same_text(a: &str, b: &str) -> (r: bool)
    ensures
        r == (a@ == b@),
{
    let n = a.unicode_len();
    if n != b.unicode_len() {
        return false;
    }
    let mut i: usize = 0;
    while i < n
        invariant
            n == a@.len(),
            n == b@.len(),
            i <= n,
            forall|j: int| 0 <= j < i ==> a@[j] == b@[j],
        decreases n - i,
    {
        if a.get_char(i) != b.get_char(i) {
            return false;
        }
        i += 1;
    }
    assert(a@ =~= b@);
    true
}

/// Which kind of program runs code in `language`; `None` for a language
/// nothing here runs.
pub fn program_kind(language: &str) -> (r: Option<ProgramKind>)
    ensures
        r == program_kind_spec(language@),
{
    if same_text(language, "bash") || same_text(language, "sh") || same_text(language, "shell")
        || same_text(language, "zsh") {
        Some(ProgramKind::Shell)
    } else if same_text(language, "nu") {
        Some(ProgramKind::Nu)
    } else if same_text(language, "pwsh") || same_text(language, "powershell") {
        Some(ProgramKind::PowerShell)
    } else if same_text(language, "rust") || same_text(language, "rs") {
        Some(ProgramKind::Rust)
    } else if same_text(language, "py") || same_text(language, "python") {
        Some(ProgramKind::Python)
    } else {
        None
    }
}

/// The executables to look for, in order of preference, for a program kind.
pub fn program_candidates(kind: ProgramKind) -> (r: Vec<&'static str>)
    ensures
        r@.len() > 0,
        kind == ProgramKind::Shell ==> r@.len() == 3 && r@[0]@ == "zsh"@ && r@[1]@ == "bash"@ && r@[2]@
            == "sh"@,
        kind == ProgramKind::Nu ==> r@.len() == 1 && r@[0]@ == "nu"@,
        kind == ProgramKind::PowerShell ==> r@.len() == 2 && r@[0]@ == "pwsh"@ && r@[1]@ == "powershell"@,
        kind == ProgramKind::Rust ==> r@.len() == 1 && r@[0]@ == "rustc"@,
        kind == ProgramKind::Python ==> r@.len() == 2 && r@[0]@ == "python3"@ && r@[1]@ == "python"@,
{
    match kind {
        ProgramKind::Shell => vec!["zsh", "bash", "sh"],
        ProgramKind::Nu => vec!["nu"],
        ProgramKind::PowerShell => vec!["pwsh", "powershell"],
        ProgramKind::Rust => vec!["rustc"],
        ProgramKind::Python => vec!["python3", "python"],
    }
}

} // verus!
