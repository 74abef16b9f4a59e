use vstd::prelude::*;
use crate::terminal::{
    Attribute, Color, OpModel, Output, TermOp, print_onto, lemma_print_onto_concat, rule, separator, gutter, push_char,
    rule_string, separator_string, gutter_string, pop_char, without_last,
};
use crate::token::{InlineStyleToken, Marker, Token, TokenModel};

verus! {

/// A code block that a closing fence completed.
pub struct CodeBlock {
    /// What followed the opening fence, if anything did.
    pub language: Option<String>,
    /// The lines between the two fences, joined by `\n`.
    pub code: String,
}

pub struct CodeBlockModel {
    pub language: Option<Seq<char>>,
    pub code: Seq<char>,
}

impl View for CodeBlock {
    type V = CodeBlockModel;

    open spec fn view(&self) -> CodeBlockModel {
        CodeBlockModel {
            language: match &self.language {
                Some(l) => Some(l@),
                None => None,
            },
            code: self.code@,
        }
    }
}

/// What the renderer is drawing.
pub enum ModeModel {
    /// Paragraph text, under the open styles, bottom first.
    Text(Seq<InlineStyleToken>),
    /// A code block: `index` is the current line (0 is the fence's line, whose
    /// text names the language), `at_line_start` tells whether the line has
    /// had no text yet, `content` the code so far.
    Code {
        index: u32,
        at_line_start: bool,
        language: Option<Seq<char>>,
        content: Seq<char>,
    },
    /// A heading, whose text and styles wait in `items` for the end of its line.
    Header { level: nat, items: Seq<TokenModel> },
}

pub struct RendererModel {
    pub mode: ModeModel,
    /// Every terminal operation logged and not yet taken.
    pub out: Seq<OpModel>,
    /// Terminal width, in columns.
    pub width: u16,
    /// Code blocks completed and not yet taken.
    pub blocks: Seq<CodeBlockModel>,
}

/// The terminal operations that switch on one style.
pub open spec fn style_ops(st: InlineStyleToken) -> Seq<OpModel> {
    match st {
        InlineStyleToken::OneStar => seq![OpModel::SetAttribute(Attribute::Italic)],
        InlineStyleToken::TwoStars => seq![OpModel::SetAttribute(Attribute::Bold)],
        InlineStyleToken::ThreeStars => seq![
            OpModel::SetAttribute(Attribute::Italic),
            OpModel::SetAttribute(Attribute::Bold),
        ],
        InlineStyleToken::OneDash => seq![OpModel::SetAttribute(Attribute::Italic)],
        InlineStyleToken::TwoDashes => seq![OpModel::SetAttribute(Attribute::Underlined)],
        InlineStyleToken::OneQuote => seq![OpModel::SetForegroundColor(Color::Yellow)],
    }
}

/// The operations that switch on every style of a stack, bottom first.
pub open spec fn styles_ops(styles: Seq<InlineStyleToken>) -> Seq<OpModel>
    decreases styles.len(),
{
    if styles.len() == 0 {
        Seq::empty()
    } else {
        styles_ops(styles.drop_last()) + style_ops(styles.last())
    }
}

/// Applying a style stack from scratch: reset everything, switch on the
/// default style (reverse and bold in a heading, nothing elsewhere), then each
/// style of the stack.
pub open spec fn apply_ops(heading: bool, styles: Seq<InlineStyleToken>) -> Seq<OpModel> {
    seq![OpModel::ResetStyle] + (if heading {
        seq![OpModel::SetAttribute(Attribute::Reverse), OpModel::SetAttribute(Attribute::Bold)]
    } else {
        Seq::empty()
    }) + styles_ops(styles)
}

/// A stack without its top; an empty stack stays empty.
pub open spec fn pop_spec(styles: Seq<InlineStyleToken>) -> Seq<InlineStyleToken> {
    if styles.len() > 0 {
        styles.drop_last()
    } else {
        styles
    }
}

pub open spec fn pow2(n: nat) -> nat
    decreases n,
{
    if n == 0 {
        1
    } else {
        2 * pow2((n - 1) as nat)
    }
}

/// Width of a heading of level `level`: the terminal width divided by 2^(level-1).
pub open spec fn heading_width(width: nat, level: nat) -> nat {
    width / pow2((level - 1) as nat)
}

/// Number of characters of the text among `items`.
pub open spec fn text_len(items: Seq<TokenModel>) -> nat
    decreases items.len(),
{
    if items.len() == 0 {
        0
    } else {
        text_len(items.drop_last()) + match items.last() {
            TokenModel::Text(s) => s.len(),
            _ => 0,
        }
    }
}

/// Column where a heading's text starts: centred in the heading's width, or
/// at the left edge when the text is as wide or wider.
pub open spec fn center_column(width: nat, level: nat, items: Seq<TokenModel>) -> nat {
    let w = heading_width(width, level);
    let l = text_len(items);
    if l < w {
        ((w - l) as nat) / 2
    } else {
        0
    }
}

/// A heading's buffer after `t` joins it; text joins text that ends it.
pub open spec fn add_item(items: Seq<TokenModel>, t: TokenModel) -> Seq<TokenModel> {
    match t {
        TokenModel::Text(s) => if s.len() == 0 {
            items
        } else if items.len() > 0 && items.last() is Text {
            items.drop_last().push(TokenModel::Text(items.last()->Text_0 + s))
        } else {
            items.push(t)
        },
        _ => items.push(t),
    }
}

/// The log after drawing a heading's buffered items under the style stack `styles`.
pub open spec fn replay(log: Seq<OpModel>, styles: Seq<InlineStyleToken>, items: Seq<TokenModel>) -> Seq<OpModel>
    decreases items.len(),
{
    if items.len() == 0 {
        log
    } else {
        let rest = items.drop_first();
        match items[0] {
            TokenModel::Text(s) => replay(print_onto(log, s), styles, rest),
            TokenModel::InlineStyle(Marker::Begin(st)) => {
                let s2 = styles.push(st);
                replay(log + apply_ops(true, s2), s2, rest)
            },
            TokenModel::InlineStyle(Marker::End(_)) => {
                let s2 = pop_spec(styles);
                replay(log + apply_ops(true, s2), s2, rest)
            },
            _ => replay(log, styles, rest),
        }
    }
}

/// The log after a heading is drawn: cursor to the centring column, heading
/// style, then the buffered text and styles.
pub open spec fn draw_heading(log: Seq<OpModel>, width: nat, level: nat, items: Seq<TokenModel>) -> Seq<OpModel> {
    replay(
        log.push(OpModel::MoveToColumn(center_column(width, level, items) as u16)) + apply_ops(
            true,
            Seq::empty(),
        ),
        Seq::empty(),
        items,
    )
}

/// The mode that a token can be given in.
pub open spec fn token_fits(mode: ModeModel, t: TokenModel) -> bool {
    match t {
        TokenModel::InlineStyle(_) => !(mode is Code),
        TokenModel::BeginCode | TokenModel::Line => mode is Text,
        TokenModel::Heading(l) => mode is Text && 1 <= l <= 6,
        TokenModel::EndCode => mode is Code,
        _ => true,
    }
}

/// Code of a closed block: its lines, each of which a `\n` ended, without the last `\n`.
pub open spec fn closed_code(content: Seq<char>) -> Seq<char> {
    without_last(content)
}

/// The renderer after it handles token `t`.
pub open spec fn render(r: RendererModel, t: TokenModel) -> RendererModel {
    match t {
        TokenModel::Text(s) => match r.mode {
            ModeModel::Text(_) => RendererModel { out: print_onto(r.out, s), ..r },
            ModeModel::Header { level, items } => RendererModel {
                mode: ModeModel::Header { level, items: add_item(items, t) },
                ..r
            },
            ModeModel::Code { index, at_line_start, language, content } => if s.len() == 0 {
                r
            } else if index == 0 {
                RendererModel {
                    mode: ModeModel::Code {
                        index,
                        at_line_start,
                        language: Some(
                            match language {
                                Some(l) => l + s,
                                None => s,
                            },
                        ),
                        content,
                    },
                    ..r
                }
            } else {
                RendererModel {
                    mode: ModeModel::Code { index, at_line_start: false, language, content: content + s },
                    out: print_onto(
                        if at_line_start {
                            print_onto(r.out, gutter(index as nat))
                        } else {
                            r.out
                        },
                        s,
                    ),
                    ..r
                }
            },
        },
        TokenModel::Newline => match r.mode {
            ModeModel::Text(_) => RendererModel {
                mode: ModeModel::Text(Seq::empty()),
                out: print_onto(r.out + apply_ops(false, Seq::empty()), seq!['\n']),
                ..r
            },
            ModeModel::Header { level, items } => RendererModel {
                mode: ModeModel::Text(Seq::empty()),
                out: print_onto(
                    draw_heading(r.out, r.width as nat, level, items) + apply_ops(false, Seq::empty()),
                    seq!['\n'],
                ),
                ..r
            },
            ModeModel::Code { index, at_line_start, language, content } => RendererModel {
                mode: ModeModel::Code {
                    index: if index < u32::MAX {
                        (index + 1) as u32
                    } else {
                        index
                    },
                    at_line_start: true,
                    language,
                    content: if index >= 1 {
                        content.push('\n')
                    } else {
                        content
                    },
                },
                out: print_onto(r.out, seq!['\n']),
                ..r
            },
        },
        TokenModel::InlineStyle(m) => match r.mode {
            ModeModel::Text(styles) => {
                let s2 = match m {
                    Marker::Begin(st) => styles.push(st),
                    Marker::End(_) => pop_spec(styles),
                };
                RendererModel { mode: ModeModel::Text(s2), out: r.out + apply_ops(false, s2), ..r }
            },
            ModeModel::Header { level, items } => RendererModel {
                mode: ModeModel::Header { level, items: add_item(items, t) },
                ..r
            },
            _ => r,
        },
        TokenModel::BeginCode => if r.mode is Text {
            RendererModel {
                mode: ModeModel::Code {
                    index: 0,
                    at_line_start: true,
                    language: None,
                    content: Seq::empty(),
                },
                out: print_onto(r.out, separator(r.width as nat, false)),
                ..r
            }
        } else {
            r
        },
        TokenModel::EndCode => match r.mode {
            ModeModel::Code { index, at_line_start, language, content } => RendererModel {
                mode: ModeModel::Text(Seq::empty()),
                out: print_onto(r.out, separator(r.width as nat, true)),
                blocks: r.blocks.push(CodeBlockModel { language, code: closed_code(content) }),
                ..r
            },
            _ => r,
        },
        TokenModel::Line => if r.mode is Text {
            RendererModel { out: print_onto(r.out, rule(r.width as nat)), ..r }
        } else {
            r
        },
        TokenModel::Heading(level) => if r.mode is Text {
            RendererModel {
                mode: ModeModel::Header { level, items: Seq::empty() },
                out: print_onto(
                    r.out + apply_ops(true, Seq::empty()),
                    rule(heading_width(r.width as nat, level)),
                ),
                ..r
            }
        } else {
            r
        },
        TokenModel::EndDocument => {
            let drawn = match r.mode {
                ModeModel::Header { level, items } => draw_heading(r.out, r.width as nat, level, items),
                _ => r.out,
            };
            RendererModel {
                mode: ModeModel::Text(Seq::empty()),
                out: print_onto(drawn + apply_ops(false, Seq::empty()), seq!['\n']),
                ..r
            }
        },
    }
}


/// Empty text changes nothing.
pub proof fn lemma_render_empty_text(r: RendererModel)
    ensures
        render(r, TokenModel::Text(Seq::empty())) == r,
{
}

/// Text drawn in two pieces draws as the whole: the renderer's state and log
/// do not depend on where text was cut.
pub proof fn lemma_render_text_concat(r: RendererModel, a: Seq<char>, b: Seq<char>)
    ensures
        render(render(r, TokenModel::Text(a)), TokenModel::Text(b)) == render(r, TokenModel::Text(a + b)),
{
    if a.len() == 0 {
        assert(a + b =~= b);
    } else if b.len() == 0 {
        assert(a + b =~= a);
    } else {
        match r.mode {
            ModeModel::Text(_) => {
                lemma_print_onto_concat(r.out, a, b);
            },
            ModeModel::Header { level, items } => {
                let i1 = add_item(items, TokenModel::Text(a));
                assert(i1.last() is Text);
                if items.len() > 0 && items.last() is Text {
                    let t = items.last()->Text_0;
                    assert(i1.drop_last() =~= items.drop_last());
                    assert(t + a + b =~= t + (a + b));
                } else {
                    assert(i1.drop_last() =~= items);
                }
            },
            ModeModel::Code { index, at_line_start, language, content } => {
                if index == 0 {
                    match language {
                        Some(l) => {
                            assert(l + a + b =~= l + (a + b));
                        },
                        None => {},
                    }
                } else {
                    let o = if at_line_start {
                        print_onto(r.out, gutter(index as nat))
                    } else {
                        r.out
                    };
                    lemma_print_onto_concat(o, a, b);
                    assert(content + a + b =~= content + (a + b));
                }
            },
        }
    }
}

/// A stack of open inline styles over a default style.
pub struct InlineStyles {
    styles: Vec<InlineStyleToken>,
    /// Reverse and bold under every style (a heading), or nothing.
    heading: bool,
}

impl InlineStyles {
    pub closed spec fn styles_spec(&self) -> Seq<InlineStyleToken> {
        self.styles@
    }

    pub closed spec fn heading_spec(&self) -> bool {
        self.heading
    }

    pub fn new(heading: bool) -> (r: InlineStyles)
        ensures
            r.styles_spec() == Seq::<InlineStyleToken>::empty(),
            r.heading_spec() == heading,
    {
        InlineStyles { styles: Vec::new(), heading }
    }

    fn apply_inline_style(st: InlineStyleToken, out: &mut Output)
        ensures
            final(out)@ == old(out)@ + style_ops(st),
    {
        match st {
            InlineStyleToken::OneStar => out.push(TermOp::SetAttribute(Attribute::Italic)),
            InlineStyleToken::TwoStars => out.push(TermOp::SetAttribute(Attribute::Bold)),
            InlineStyleToken::ThreeStars => {
                out.push(TermOp::SetAttribute(Attribute::Italic));
                out.push(TermOp::SetAttribute(Attribute::Bold));
            },
            InlineStyleToken::OneDash => out.push(TermOp::SetAttribute(Attribute::Italic)),
            InlineStyleToken::TwoDashes => out.push(TermOp::SetAttribute(Attribute::Underlined)),
            InlineStyleToken::OneQuote => out.push(TermOp::SetForegroundColor(Color::Yellow)),
        }
        assert(final(out)@ =~= old(out)@ + style_ops(st));
    }

    /// Logs the operations that apply the whole stack from scratch.
    pub fn apply_styles(&self, out: &mut Output)
        ensures
            final(out)@ == old(out)@ + apply_ops(self.heading_spec(), self.styles_spec()),
    {
        out.push(TermOp::ResetStyle);
        if self.heading {
            out.push(TermOp::SetAttribute(Attribute::Reverse));
            out.push(TermOp::SetAttribute(Attribute::Bold));
        }
        let ghost base = out@;
        let n = self.styles.len();
        let mut i: usize = 0;
        while i < n
            invariant
                n == self.styles@.len(),
                i <= n,
                out@ == base + styles_ops(self.styles@.take(i as int)),
            decreases n - i,
        {
            Self::apply_inline_style(self.styles[i], out);
            assert(self.styles@.take(i + 1).drop_last() =~= self.styles@.take(i as int));
            assert(base + styles_ops(self.styles@.take(i as int)) + style_ops(self.styles@[i as int])
                =~= base + (styles_ops(self.styles@.take(i as int)) + style_ops(self.styles@[i as int])));
            i += 1;
        }
        assert(self.styles@.take(n as int) =~= self.styles@);
        assert(out@ =~= old(out)@ + apply_ops(self.heading_spec(), self.styles_spec()));
    }

    pub fn push_style(&mut self, style: InlineStyleToken, out: &mut Output)
        ensures
            final(self).styles_spec() == old(self).styles_spec().push(style),
            final(self).heading_spec() == old(self).heading_spec(),
            final(out)@ == old(out)@ + apply_ops(
                old(self).heading_spec(),
                old(self).styles_spec().push(style),
            ),
    {
        self.styles.push(style);
        self.apply_styles(out);
    }

    pub fn pop_style(&mut self, out: &mut Output)
        ensures
            final(self).styles_spec() == pop_spec(old(self).styles_spec()),
            final(self).heading_spec() == old(self).heading_spec(),
            final(out)@ == old(out)@ + apply_ops(
                old(self).heading_spec(),
                pop_spec(old(self).styles_spec()),
            ),
    {
        self.styles.pop();
        self.apply_styles(out);
    }

    pub fn reset_styles(&mut self, out: &mut Output)
        ensures
            final(self).styles_spec() == Seq::<InlineStyleToken>::empty(),
            final(self).heading_spec() == old(self).heading_spec(),
            final(out)@ == old(out)@ + apply_ops(old(self).heading_spec(), Seq::empty()),
    {
        self.styles.clear();
        self.apply_styles(out);
    }
}


/// A code block being drawn.
pub struct Code {
    index: u32,
    at_line_start: bool,
    language: Option<String>,
    content: String,
}

impl Code {
    pub closed spec fn model(&self) -> ModeModel {
        ModeModel::Code {
            index: self.index,
            at_line_start: self.at_line_start,
            language: match &self.language {
                Some(l) => Some(l@),
                None => None,
            },
            content: self.content@,
        }
    }

    pub fn new() -> (r: Code)
        ensures
            r.model() == (ModeModel::Code {
                index: 0,
                at_line_start: true,
                language: None,
                content: Seq::empty(),
            }),
    {
        Code { index: 0, at_line_start: true, language: None, content: String::new() }
    }

    /// Logs the separator that opens the block.
    pub fn init(&self, width: u16, out: &mut Output)
        ensures
            final(out)@ == print_onto(old(out)@, separator(width as nat, false)),
    {
        let sep = separator_string(width, false);
        out.print(sep.as_str());
    }

    fn push_language(&mut self, word: &str)
        ensures
            final(self).index == old(self).index,
            final(self).at_line_start == old(self).at_line_start,
            final(self).content@ == old(self).content@,
            final(self).language is Some,
            final(self).language->Some_0@ == match &old(self).language {
                Some(l) => l@ + word@,
                None => word@,
            },
    {
        match self.language.take() {
            None => {
                self.language = Some(String::from_str(word));
            },
            Some(l) => {
                let mut l = l;
                l.append(word);
                self.language = Some(l);
            },
        }
    }

    /// Handles text: the fence's line names the language; on a later line the
    /// gutter comes before the line's first text.
    pub fn push_text(&mut self, s: &str, out: &mut Output)
        ensures
            ({
                let r = render(
                    RendererModel { mode: old(self).model(), out: old(out)@, width: 0, blocks: Seq::empty() },
                    TokenModel::Text(s@),
                );
                final(self).model() == r.mode && final(out)@ == r.out
            }),
    {
        if s.unicode_len() == 0 {
            return;
        }
        if self.index == 0 {
            self.push_language(s);
        } else {
            if self.at_line_start {
                let g = gutter_string(self.index);
                out.print(g.as_str());
                self.at_line_start = false;
            }
            out.print(s);
            self.content.append(s);
        }
    }

    /// Handles the end of a line.
    pub fn newline(&mut self, out: &mut Output)
        ensures
            ({
                let r = render(
                    RendererModel { mode: old(self).model(), out: old(out)@, width: 0, blocks: Seq::empty() },
                    TokenModel::Newline,
                );
                final(self).model() == r.mode && final(out)@ == r.out
            }),
    {
        if self.index >= 1 {
            push_char(&mut self.content, '\n');
        }
        if self.index < u32::MAX {
            self.index = self.index + 1;
        }
        self.at_line_start = true;
        out.print("\n");
        proof {
            reveal_strlit("\n");
        }
        assert(seq!['\n'] =~= "\n"@);
    }

    /// Logs the separator that closes the block and hands out the block.
    pub fn finish(self, width: u16, out: &mut Output) -> (r: CodeBlock)
        ensures
            final(out)@ == print_onto(old(out)@, separator(width as nat, true)),
            self.model() matches ModeModel::Code { language, content, .. } && r@ == (CodeBlockModel {
                language,
                code: closed_code(content),
            }),
    {
        let sep = separator_string(width, true);
        out.print(sep.as_str());
        let mut code = self.content;
        pop_char(&mut code);
        CodeBlock { language: self.language, code }
    }
}

/// A heading whose text waits for the end of its line.
pub struct Header {
    level: usize,
    tokens: Vec<Token>,
}

/// Longest text length that the centring needs to tell apart.
const LEN_CAP: usize = 65536;

impl Header {
    pub closed spec fn items(&self) -> Seq<TokenModel> {
        self.tokens@.map_values(|t: Token| t@)
    }

    pub closed spec fn level_spec(&self) -> nat {
        self.level as nat
    }

    pub closed spec fn model(&self) -> ModeModel {
        ModeModel::Header { level: self.level as nat, items: self.items() }
    }

    pub fn new(level: usize) -> (r: Header)
        ensures
            r.model() == (ModeModel::Header { level: level as nat, items: Seq::empty() }),
            r.level_spec() == level,
            r.items() == Seq::<TokenModel>::empty(),
    {
        let r = Header { level, tokens: Vec::new() };
        assert(r.items() =~= Seq::<TokenModel>::empty());
        r
    }

    /// Width of the heading on a terminal `width` columns wide.
    pub fn header_width(&self, width: u16) -> (r: usize)
        requires
            1 <= self.level_spec() <= 6,
        ensures
            r == heading_width(width as nat, self.level_spec()),
            r <= width,
    {
        reveal_with_fuel(pow2, 6);
        let w = width as usize;
        match self.level {
            1 => {
                assert(pow2(0) == 1);
                assert(heading_width(width as nat, 1) == width as nat / 1);
                assert(width as nat / 1 == width as nat) by (nonlinear_arith);
                w
            },
            2 => {
                assert(pow2(1) == 2);
                w / 2
            },
            3 => {
                assert(pow2(2) == 4);
                w / 4
            },
            4 => {
                assert(pow2(3) == 8);
                w / 8
            },
            5 => {
                assert(pow2(4) == 16);
                w / 16
            },
            _ => {
                assert(pow2(5) == 32);
                w / 32
            },
        }
    }

    /// Logs the heading style and the bar that the text is drawn over.
    pub fn init(&self, width: u16, out: &mut Output)
        requires
            1 <= self.level_spec() <= 6,
        ensures
            final(out)@ == print_onto(
                old(out)@ + apply_ops(true, Seq::empty()),
                rule(heading_width(width as nat, self.level_spec())),
            ),
    {
        let styles = InlineStyles::new(true);
        styles.apply_styles(out);
        let line = rule_string(self.header_width(width));
        out.print(line.as_str());
    }

    /// Length of the buffered text, in characters, capped at a value no
    /// heading width reaches: centring only compares it with the width.
    fn centring_len(&self) -> (r: usize)
        ensures
            r as nat == if text_len(self.items()) < LEN_CAP as nat {
                text_len(self.items())
            } else {
                LEN_CAP as nat
            },
    {
        let n = self.tokens.len();
        let mut total: usize = 0;
        let mut i: usize = 0;
        while i < n
            invariant
                n == self.tokens@.len(),
                i <= n,
                total as nat == if text_len(self.items().take(i as int)) < LEN_CAP as nat {
                    text_len(self.items().take(i as int))
                } else {
                    LEN_CAP as nat
                },
            decreases n - i,
        {
            assert(self.items().take(i + 1).drop_last() =~= self.items().take(i as int));
            match &self.tokens[i] {
                Token::Text(s) => {
                    let l = s.as_str().unicode_len();
                    if l >= LEN_CAP - total {
                        total = LEN_CAP;
                    } else {
                        total = total + l;
                    }
                },
                _ => {},
            }
            i += 1;
        }
        assert(self.items().take(n as int) =~= self.items());
        total
    }

    /// Buffers a token; text joins text that ends the buffer.
    pub fn push_token(&mut self, token: Token)
        ensures
            final(self).items() == add_item(old(self).items(), token@),
            final(self).level_spec() == old(self).level_spec(),
    {
        match token {
            Token::Text(s) => {
                if s.as_str().unicode_len() == 0 {
                    return;
                }
                let last = self.tokens.pop();
                match last {
                    Some(Token::Text(t)) => {
                        let mut t = t;
                        t.append(s.as_str());
                        self.tokens.push(Token::Text(t));
                        assert(self.items() =~= add_item(old(self).items(), token@));
                    },
                    Some(other) => {
                        self.tokens.push(other);
                        assert(self.tokens@ =~= old(self).tokens@);
                        self.tokens.push(Token::Text(s));
                        assert(self.items() =~= add_item(old(self).items(), token@));
                    },
                    None => {
                        self.tokens.push(Token::Text(s));
                        assert(self.items() =~= add_item(old(self).items(), token@));
                    },
                }
            },
            other => {
                self.tokens.push(other);
                assert(self.items() =~= add_item(old(self).items(), token@));
            },
        }
    }

    /// Logs the heading: its text centred, in the heading style.
    pub fn draw_text(&self, width: u16, out: &mut Output)
        requires
            1 <= self.level_spec() <= 6,
        ensures
            final(out)@ == draw_heading(old(out)@, width as nat, self.level_spec(), self.items()),
    {
        let w = self.header_width(width);
        let l = self.centring_len();
        let col: usize = if l < w { (w - l) / 2 } else { 0 };
        assert(col == center_column(width as nat, self.level_spec(), self.items()));
        out.push(TermOp::MoveToColumn(col as u16));
        let mut styles = InlineStyles::new(true);
        styles.apply_styles(out);
        let ghost goal = draw_heading(old(out)@, width as nat, self.level_spec(), self.items());
        let ghost items = self.items();
        let n = self.tokens.len();
        let mut i: usize = 0;
        assert(items.subrange(0, n as int) =~= items);
        while i < n
            invariant
                n == self.tokens@.len(),
                items == self.items(),
                i <= n,
                styles.heading_spec(),
                replay(out@, styles.styles_spec(), items.subrange(i as int, n as int)) == goal,
            decreases n - i,
        {
            assert(items.subrange(i as int, n as int).drop_first() =~= items.subrange(i + 1, n as int));
            assert(items.subrange(i as int, n as int)[0] == self.tokens@[i as int]@);
            match &self.tokens[i] {
                Token::Text(s) => out.print(s.as_str()),
                Token::InlineStyle(Marker::Begin(st)) => styles.push_style(*st, out),
                Token::InlineStyle(Marker::End(_)) => styles.pop_style(out),
                _ => {},
            }
            i += 1;
        }
    }
}


/// What the renderer is drawing, with the state of that drawing.
pub enum Mode {
    Text(InlineStyles),
    Code(Code),
    Header(Header),
}

impl Mode {
    pub closed spec fn model(&self) -> ModeModel {
        match self {
            Mode::Text(st) => ModeModel::Text(st.styles_spec()),
            Mode::Code(c) => c.model(),
            Mode::Header(h) => h.model(),
        }
    }

    pub closed spec fn wf(&self) -> bool {
        match self {
            Mode::Text(st) => !st.heading_spec(),
            Mode::Code(_) => true,
            Mode::Header(h) => 1 <= h.level_spec() <= 6,
        }
    }
}

/// Draws tokens on a terminal, as a log of terminal operations.
pub struct TerminalRenderer {
    mode: Mode,
    out: Output,
    width: u16,
    blocks: Vec<CodeBlock>,
}

impl View for TerminalRenderer {
    type V = RendererModel;

    closed spec fn view(&self) -> RendererModel {
        RendererModel {
            mode: self.mode.model(),
            out: self.out@,
            width: self.width,
            blocks: self.blocks@.map_values(|b: CodeBlock| b@),
        }
    }
}

impl TerminalRenderer {
    pub closed spec fn wf(&self) -> bool {
        self.mode.wf()
    }

    /// A renderer for a terminal `width` columns wide, in paragraph mode, with
    /// nothing logged.
    pub fn new(width: u16) -> (r: TerminalRenderer)
        ensures
            r.wf(),
            r@ == (RendererModel {
                mode: ModeModel::Text(Seq::empty()),
                out: Seq::empty(),
                width,
                blocks: Seq::empty(),
            }),
    {
        let r = TerminalRenderer {
            mode: Mode::Text(InlineStyles::new(false)),
            out: Output::new(),
            width,
            blocks: Vec::new(),
        };
        assert(r@.blocks =~= Seq::<CodeBlockModel>::empty());
        r
    }

    fn print_newline(&mut self)
        ensures
            final(self).mode == old(self).mode,
            final(self).width == old(self).width,
            final(self).blocks == old(self).blocks,
            final(self).out@ == print_onto(old(self).out@, seq!['\n']),
    {
        proof {
            reveal_strlit("\n");
        }
        assert(seq!['\n'] =~= "\n"@);
        self.out.print("\n");
    }

    /// Draws one token. A token that its mode cannot take is a caller's bug,
    /// which `token_fits` rules out.
    pub fn push_token(&mut self, token: Token)
        requires
            old(self).wf(),
            token_fits(old(self)@.mode, token@),
        ensures
            final(self).wf(),
            final(self)@ == render(old(self)@, token@),
    {
        let ghost t = token@;
        match token {
            Token::Text(s) => {
                match &mut self.mode {
                    Mode::Text(_) => self.out.print(s.as_str()),
                    Mode::Code(code) => code.push_text(s.as_str(), &mut self.out),
                    Mode::Header(h) => h.push_token(Token::Text(s)),
                }
            },
            Token::Newline => {
                let mut mode = Mode::Text(InlineStyles::new(false));
                std::mem::swap(&mut mode, &mut self.mode);
                match mode {
                    Mode::Text(st) => {
                        let mut st = st;
                        st.reset_styles(&mut self.out);
                        self.mode = Mode::Text(st);
                        self.print_newline();
                    },
                    Mode::Header(h) => {
                        h.draw_text(self.width, &mut self.out);
                        let st = InlineStyles::new(false);
                        st.apply_styles(&mut self.out);
                        self.mode = Mode::Text(st);
                        self.print_newline();
                    },
                    Mode::Code(c) => {
                        let mut c = c;
                        c.newline(&mut self.out);
                        self.mode = Mode::Code(c);
                    },
                }
            },
            Token::InlineStyle(m) => {
                match &mut self.mode {
                    Mode::Text(st) => {
                        match m {
                            Marker::Begin(x) => st.push_style(x, &mut self.out),
                            Marker::End(_) => st.pop_style(&mut self.out),
                        }
                    },
                    Mode::Header(h) => h.push_token(Token::InlineStyle(m)),
                    Mode::Code(_) => {},
                }
            },
            Token::BeginCode => {
                let code = Code::new();
                code.init(self.width, &mut self.out);
                self.mode = Mode::Code(code);
            },
            Token::EndCode => {
                let mut mode = Mode::Text(InlineStyles::new(false));
                std::mem::swap(&mut mode, &mut self.mode);
                match mode {
                    Mode::Code(c) => {
                        let b = c.finish(self.width, &mut self.out);
                        self.blocks.push(b);
                        assert(self@.blocks =~= old(self)@.blocks.push(b@));
                    },
                    other => {
                        self.mode = other;
                    },
                }
            },
            Token::Line => {
                let line = rule_string(self.width as usize);
                self.out.print(line.as_str());
            },
            Token::Heading(level) => {
                let h = Header::new(level.0);
                h.init(self.width, &mut self.out);
                self.mode = Mode::Header(h);
            },
            Token::EndDocument => {
                let mut mode = Mode::Text(InlineStyles::new(false));
                std::mem::swap(&mut mode, &mut self.mode);
                match mode {
                    Mode::Header(h) => h.draw_text(self.width, &mut self.out),
                    _ => {},
                }
                let st = InlineStyles::new(false);
                st.apply_styles(&mut self.out);
                self.print_newline();
            },
        }
    }

    /// Hands out the terminal operations logged so far.
    pub fn take_output(&mut self) -> (r: Vec<TermOp>)
        requires
            old(self).wf(),
        ensures
            final(self).wf(),
            r@.map_values(|op: TermOp| op@) == old(self)@.out,
            final(self)@ == (RendererModel { out: Seq::empty(), ..old(self)@ }),
    {
        self.out.take()
    }

    /// Hands out the code blocks completed so far.
    pub fn take_code_blocks(&mut self) -> (r: Vec<CodeBlock>)
        requires
            old(self).wf(),
        ensures
            final(self).wf(),
            r@.map_values(|b: CodeBlock| b@) == old(self)@.blocks,
            final(self)@ == (RendererModel { blocks: Seq::empty(), ..old(self)@ }),
    {
        let mut r = Vec::new();
        std::mem::swap(&mut r, &mut self.blocks);
        assert(self@.blocks =~= Seq::<CodeBlockModel>::empty());
        r
    }
}

} // verus!
