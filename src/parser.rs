use vstd::prelude::*;
use vstd::std_specs::iter::IteratorSpec;
use crate::renderer::{
    CodeBlock, ModeModel, RendererModel, TerminalRenderer, render, token_fits, lemma_render_empty_text,
    lemma_render_text_concat,
};
use crate::terminal::{TermOp, push_char};
use crate::token::{InlineStyleToken, Level, Marker, Token, TokenModel};

verus! {

/// Which per-character analysis is active.
#[derive(Debug, PartialEq, Eq, Structural, Clone, Copy)]
pub enum ParserMode {
    /// Paragraph text: markers for styles, headings, rules and fences.
    Text,
    /// Inside a code block: only a closing fence is looked for.
    CodeBlock,
}

/// The parser as a mathematical value. Text that the parser holds back before
/// handing it on is counted as handed on already: `renderer` is the renderer
/// once that text is drawn.
pub struct ParserModel {
    pub renderer: RendererModel,
    /// Marker characters not yet resolved.
    pub marker: Seq<char>,
    /// The last character of the line that was not a marker, if any.
    pub prev: Option<char>,
    /// Styles open, bottom first.
    pub styles: Seq<InlineStyleToken>,
    pub mode: ParserMode,
}

/// What `char::is_alphanumeric` returns for `c`.
pub uninterp spec fn alphanumeric(c: char) -> bool;

/// Relies on `char::is_alphanumeric`: alphabetic or numeric in Unicode's sense.
#[verifier::external_body]
fn is_alphanumeric(c: char) -> (r: bool)
    ensures
        r == alphanumeric(c),
{
    c.is_alphanumeric()
}

/// A character next to which a style can open or close: neither alphanumeric
/// nor a style marker.
pub open spec fn boundary(c: char) -> bool {
    !(alphanumeric(c) || c == '*' || c == '_' || c == '`')
}

/// Whether every character of `m` is `c` (an empty `m` included).
pub open spec fn all_same(m: Seq<char>, c: char) -> bool {
    forall|i: int| 0 <= i < m.len() ==> m[i] == c
}

/// The style a marker stands for, if it stands for one.
pub open spec fn style_of(m: Seq<char>) -> Option<InlineStyleToken> {
    if m.len() == 1 && m[0] == '*' {
        Some(InlineStyleToken::OneStar)
    } else if m.len() == 2 && all_same(m, '*') {
        Some(InlineStyleToken::TwoStars)
    } else if m.len() == 3 && all_same(m, '*') {
        Some(InlineStyleToken::ThreeStars)
    } else if m.len() == 1 && m[0] == '_' {
        Some(InlineStyleToken::OneDash)
    } else if m.len() == 2 && all_same(m, '_') {
        Some(InlineStyleToken::TwoDashes)
    } else if m.len() == 1 && m[0] == '`' {
        Some(InlineStyleToken::OneQuote)
    } else {
        None
    }
}

/// A fence: three backticks.
pub open spec fn is_fence(m: Seq<char>) -> bool {
    m.len() == 3 && all_same(m, '`')
}

/// The style stack after a marker of style `st`: it closes `st` when `st` is on
/// top, and opens it otherwise.
pub open spec fn toggle(styles: Seq<InlineStyleToken>, st: InlineStyleToken) -> Seq<InlineStyleToken> {
    if styles.len() > 0 && styles.last() == st {
        styles.drop_last()
    } else {
        styles.push(st)
    }
}

pub open spec fn toggle_marker(styles: Seq<InlineStyleToken>, st: InlineStyleToken) -> Marker {
    if styles.len() > 0 && styles.last() == st {
        Marker::End(st)
    } else {
        Marker::Begin(st)
    }
}

/// The parser after it hands token `t` to its renderer.
pub open spec fn emit(p: ParserModel, t: TokenModel) -> ParserModel {
    ParserModel { renderer: render(p.renderer, t), ..p }
}

/// Whether a marker between `prev` and the lookahead `c` toggles a style: a
/// style opens or closes where exactly one side is a word boundary (the start
/// of a line counts as one). With both sides in words (`a*b`) or both sides
/// blank (`a * b`) the marker is literal.
pub open spec fn toggles_here(prev: Option<char>, c: char) -> bool {
    let is_begin = match prev {
        None => true,
        Some(p) => boundary(p),
    };
    is_begin != boundary(c)
}

/// Resolving the pending marker, given the character `c` that follows it
/// (`print_c`: whether `c` is text to print after it).
#[verifier::opaque]
pub open spec fn apply_marker(p: ParserModel, c: char, print_c: bool) -> ParserModel {
    let m = p.marker;
    let after = |q: ParserModel|
        if print_c {
            emit(q, TokenModel::Text(seq![c]))
        } else {
            q
        };
    if m.len() == 0 {
        after(p)
    } else if p.prev is None && is_fence(m) {
        after(ParserModel { marker: Seq::empty(), mode: ParserMode::CodeBlock, ..emit(p, TokenModel::BeginCode) })
    } else if p.prev is None && m.len() >= 3 && c == '\n' && (all_same(m, '-') || all_same(m, '_')) {
        ParserModel { marker: Seq::empty(), ..emit(p, TokenModel::Line) }
    } else if p.prev is None && all_same(m, '#') && m.len() <= 6 && c == ' ' {
        ParserModel { marker: Seq::empty(), ..emit(p, TokenModel::Heading(m.len())) }
    } else if toggles_here(p.prev, c) && style_of(m) is Some {
        let st = style_of(m)->0;
        after(
            ParserModel {
                marker: Seq::empty(),
                styles: toggle(p.styles, st),
                ..emit(p, TokenModel::InlineStyle(toggle_marker(p.styles, st)))
            },
        )
    } else {
        ParserModel {
            marker: Seq::empty(),
            ..emit(
                p,
                TokenModel::Text(
                    if print_c {
                        m.push(c)
                    } else {
                        m
                    },
                ),
            )
        }
    }
}

/// Whether the character `c` joins the pending marker in paragraph text.
pub open spec fn joins_marker(p: ParserModel, c: char) -> bool {
    if c == '*' || c == '_' {
        !(p.styles.len() > 0 && p.styles.last() == InlineStyleToken::OneQuote) && all_same(p.marker, c)
    } else if c == '`' {
        all_same(p.marker, c)
    } else if c == '-' || c == '#' {
        p.prev is None
    } else {
        false
    }
}

/// One character of paragraph text. A line end resolves the pending marker
/// and starts a new line; the styles the parser knows to be open stay open
/// (the renderer starts each line plain).
pub open spec fn text_step(p: ParserModel, c: char) -> ParserModel {
    if c == '\n' {
        ParserModel {
            prev: None,
            ..emit(apply_marker(p, '\n', false), TokenModel::Newline)
        }
    } else if joins_marker(p, c) {
        ParserModel { marker: p.marker.push(c), ..p }
    } else {
        ParserModel { prev: Some(c), ..apply_marker(p, c, true) }
    }
}

/// The end of a line in a code block: a fence closes the block, anything else
/// pending is code.
pub open spec fn close_code_line(p: ParserModel) -> ParserModel {
    if is_fence(p.marker) {
        ParserModel { marker: Seq::empty(), mode: ParserMode::Text, ..emit(p, TokenModel::EndCode) }
    } else {
        ParserModel { marker: Seq::empty(), ..emit(p, TokenModel::Text(p.marker)) }
    }
}

/// One character inside a code block.
pub open spec fn code_step(p: ParserModel, c: char) -> ParserModel {
    if c == '\n' {
        ParserModel {
            prev: None,
            ..emit(close_code_line(p), TokenModel::Newline)
        }
    } else if c == '`' && p.prev is None {
        ParserModel { marker: p.marker.push(c), ..p }
    } else {
        ParserModel { marker: Seq::empty(), prev: Some(c), ..emit(p, TokenModel::Text(p.marker.push(c))) }
    }
}

pub open spec fn step(p: ParserModel, c: char) -> ParserModel {
    match p.mode {
        ParserMode::Text => text_step(p, c),
        ParserMode::CodeBlock => code_step(p, c),
    }
}

/// The parser after the characters `s`, one at a time.
pub open spec fn feed(p: ParserModel, s: Seq<char>) -> ParserModel
    decreases s.len(),
{
    if s.len() == 0 {
        p
    } else {
        step(feed(p, s.drop_last()), s.last())
    }
}

/// Whether the marker pending at the end of a document closes the style on
/// top of the stack, as it would before a line end.
pub open spec fn closes_at_end(p: ParserModel) -> bool {
    let m = p.marker;
    &&& toggles_here(p.prev, '\n')
    &&& style_of(m) is Some
    &&& toggle_marker(p.styles, style_of(m)->0) is End
}

/// The parser after the end of the document: a pending marker that closes the
/// style on top of the stack does so, any other pending marker is printed as
/// it is (nothing follows it to make it a rule, fence, heading or opening
/// style), a fence pending in a code block closes the block, `EndDocument`
/// goes to the renderer, and the parser is back to its initial state.
pub open spec fn finish(p: ParserModel) -> ParserModel {
    let q = match p.mode {
        ParserMode::Text => if closes_at_end(p) {
            apply_marker(p, '\n', false)
        } else {
            ParserModel { marker: Seq::empty(), ..emit(p, TokenModel::Text(p.marker)) }
        },
        ParserMode::CodeBlock => close_code_line(p),
    };
    ParserModel {
        renderer: render(q.renderer, TokenModel::EndDocument),
        marker: Seq::empty(),
        prev: None,
        styles: Seq::empty(),
        mode: ParserMode::Text,
    }
}

/// The parser's invariant: its mode agrees with the renderer's; a heading is
/// only drawn once its line has had a character other than a marker; no open
/// style sits right on top of itself.
pub open spec fn model_inv(p: ParserModel) -> bool {
    &&& (p.mode == ParserMode::CodeBlock) == (p.renderer.mode is Code)
    &&& (p.renderer.mode is Header ==> p.prev is Some)
    &&& no_repeats(p.styles)
}

/// No style sits right on top of itself.
pub open spec fn no_repeats(styles: Seq<InlineStyleToken>) -> bool {
    forall|i: int| 0 < i < styles.len() ==> styles[i - 1] != #[trigger] styles[i]
}



/// Resolving a marker keeps the modes in step and the stack free of repeats.
proof fn lemma_apply_marker_inv(p: ParserModel, c: char, print_c: bool)
    requires
        model_inv(p),
        p.mode == ParserMode::Text,
    ensures
        ({
            let q = apply_marker(p, c, print_c);
            &&& (q.mode == ParserMode::CodeBlock) == (q.renderer.mode is Code)
            &&& no_repeats(q.styles)
            &&& (q.renderer.mode is Header ==> (p.renderer.mode is Header || c == ' '))
        }),
{
    reveal(apply_marker);
    let m = p.marker;
    if m.len() > 0 && !(p.prev is None && is_fence(m)) && !(p.prev is None && m.len() >= 3 && c == '\n'
        && (all_same(m, '-') || all_same(m, '_'))) && !(p.prev is None && all_same(m, '#') && m.len()
        <= 6 && c == ' ') && toggles_here(p.prev, c) && style_of(m) is Some {
        let st = style_of(m)->0;
        let t = toggle(p.styles, st);
        if p.styles.len() > 0 && p.styles.last() == st {
            assert forall|i: int| 0 < i < t.len() implies t[i - 1] != #[trigger] t[i] by {
                assert(t[i] == p.styles[i]);
            }
        } else {
            assert forall|i: int| 0 < i < t.len() implies t[i - 1] != #[trigger] t[i] by {
                if i < p.styles.len() {
                    assert(t[i] == p.styles[i]);
                }
            }
        }
    }
}

/// One character of paragraph text keeps the invariant.
proof fn lemma_text_step_inv(p: ParserModel, c: char)
    requires
        model_inv(p),
        p.mode == ParserMode::Text,
    ensures
        model_inv(text_step(p, c)),
{
    if c == '\n' {
        lemma_apply_marker_inv(p, '\n', false);
    } else if !joins_marker(p, c) {
        lemma_apply_marker_inv(p, c, true);
    }
}


/// Feeding `a` and then `b` is feeding `a + b`.
pub proof fn lemma_feed_concat(p: ParserModel, a: Seq<char>, b: Seq<char>)
    ensures
        feed(feed(p, a), b) == feed(p, a + b),
    decreases b.len(),
{
    if b.len() == 0 {
        assert(a + b =~= a);
    } else {
        lemma_feed_concat(p, a, b.drop_last());
        assert((a + b).drop_last() =~= a + b.drop_last());
        assert((a + b).last() == b.last());
    }
}

/// The parser after each fragment in turn, as `push` leaves it.
pub open spec fn feed_fragments(p: ParserModel, frags: Seq<Seq<char>>) -> ParserModel
    decreases frags.len(),
{
    if frags.len() == 0 {
        p
    } else {
        feed(feed_fragments(p, frags.drop_last()), frags.last())
    }
}

/// Where a document is cut into fragments makes no difference: pushing the
/// fragments one by one leaves the parser, its renderer and the logged
/// terminal operations exactly as pushing the whole text at once, and so does
/// ending the document after either.
pub proof fn lemma_chunk_boundary_invariance(p: ParserModel, frags: Seq<Seq<char>>)
    ensures
        feed_fragments(p, frags) == feed(p, frags.flatten()),
        finish(feed_fragments(p, frags)) == finish(feed(p, frags.flatten())),
    decreases frags.len(),
{
    frags.lemma_flatten_and_flatten_alt_are_equivalent();
    if frags.len() > 0 {
        let init = frags.drop_last();
        init.lemma_flatten_and_flatten_alt_are_equivalent();
        lemma_chunk_boundary_invariance(p, init);
        lemma_feed_concat(p, init.flatten(), frags.last());
    } else {
        assert(frags.flatten() =~= Seq::<char>::empty());
    }
}

/// A style marker toggles: met twice in a row it opens then closes its style,
/// or closes then reopens it, and the stack is back as it was. This holds of
/// every stack the parser can reach, since none has a style right on top of
/// itself, and toggling keeps it so.
pub proof fn lemma_toggle_twice(styles: Seq<InlineStyleToken>, st: InlineStyleToken)
    requires
        no_repeats(styles),
    ensures
        toggle(toggle(styles, st), st) == styles,
        no_repeats(toggle(styles, st)),
{
    let t = toggle(styles, st);
    if styles.len() > 0 && styles.last() == st {
        if styles.len() > 1 {
            assert(styles[styles.len() - 2] != styles[styles.len() - 1]);
        }
        assert(t.push(st) =~= styles);
        assert forall|i: int| 0 < i < t.len() implies t[i - 1] != #[trigger] t[i] by {
            assert(t[i] == styles[i]);
        }
    } else {
        assert(t.drop_last() =~= styles);
        assert forall|i: int| 0 < i < t.len() implies t[i - 1] != #[trigger] t[i] by {
            if i < styles.len() {
                assert(t[i] == styles[i]);
            }
        }
    }
}

/// Every state the parser reaches from its initial state by pushing text and
/// ending documents keeps its invariant; in particular its style stack never
/// holds a style right on top of itself, so that two markers of one style in
/// a row always leave it as it was.
pub proof fn lemma_feed_keeps_invariant(p: ParserModel, s: Seq<char>)
    requires
        model_inv(p),
    ensures
        model_inv(feed(p, s)),
        model_inv(finish(feed(p, s))),
    decreases s.len(),
{
    if s.len() > 0 {
        lemma_feed_keeps_invariant(p, s.drop_last());
        let q = feed(p, s.drop_last());
        match q.mode {
            ParserMode::Text => lemma_text_step_inv(q, s.last()),
            ParserMode::CodeBlock => {},
        }
    }
    let q = feed(p, s);
    match q.mode {
        ParserMode::Text => lemma_apply_marker_inv(q, '\n', false),
        ParserMode::CodeBlock => {},
    }
}


/// A fence opens a code block only at the start of a line: once a line has had
/// a character other than a marker, no character of paragraph text switches
/// the parser to a code block.
pub proof fn lemma_fence_only_at_line_start(p: ParserModel, c: char)
    requires
        p.mode == ParserMode::Text,
        p.prev is Some,
    ensures
        text_step(p, c).mode == ParserMode::Text,
{
    reveal(apply_marker);
}


/// The word-boundary rule: a marker with a word character on both sides
/// (`a*b`), or a blank on both sides (`a * b`), toggles no style; it is
/// printed as it is.
pub proof fn lemma_no_toggle_without_one_boundary(p: ParserModel, c: char, print_c: bool)
    requires
        p.prev matches Some(x) && boundary(x) == boundary(c),
        p.marker.len() > 0,
    ensures
        apply_marker(p, c, print_c) == (ParserModel {
            marker: Seq::empty(),
            ..emit(
                p,
                TokenModel::Text(
                    if print_c {
                        p.marker.push(c)
                    } else {
                        p.marker
                    },
                ),
            )
        }),
{
    reveal(apply_marker);
}


/// A marker that names a style and sits where exactly one side is a word
/// boundary toggles that style: after the text held back, the renderer gets
/// `End` and the style is popped when it is on top, and `Begin` with a push
/// otherwise; the marker is used up.
pub proof fn lemma_marker_toggles(p: ParserModel, c: char, print_c: bool)
    requires
        p.mode == ParserMode::Text,
        style_of(p.marker) is Some,
        toggles_here(p.prev, c),
        !(p.prev is None && is_fence(p.marker)),
    ensures
        ({
            let st = style_of(p.marker)->0;
            let q = ParserModel {
                marker: Seq::empty(),
                styles: toggle(p.styles, st),
                ..emit(p, TokenModel::InlineStyle(toggle_marker(p.styles, st)))
            };
            apply_marker(p, c, print_c) == if print_c {
                emit(q, TokenModel::Text(seq![c]))
            } else {
                q
            }
        }),
{
    reveal(apply_marker);
    assert(p.marker[0] != '#' && p.marker[0] != '-');
    assert(!all_same(p.marker, '#'));
    assert(!all_same(p.marker, '-'));
}

/// Resolving a marker in paragraph text opens a code block exactly when the
/// marker is three backticks at the start of a line; the block then begins
/// with nothing of the marker printed.
pub proof fn lemma_fence_opens_block(p: ParserModel, c: char, print_c: bool)
    requires
        p.mode == ParserMode::Text,
    ensures
        (apply_marker(p, c, print_c).mode == ParserMode::CodeBlock) == (p.prev is None && is_fence(p.marker)),
        p.prev is None && is_fence(p.marker) ==> ({
            let q = ParserModel { marker: Seq::empty(), mode: ParserMode::CodeBlock, ..emit(p, TokenModel::BeginCode) };
            apply_marker(p, c, print_c) == if print_c {
                emit(q, TokenModel::Text(seq![c]))
            } else {
                q
            }
        }),
{
    reveal(apply_marker);
}

/// Whether the marker pending at the end of a document stands for nothing
/// there: in paragraph text, any marker but one that closes the style on top;
/// in a code block, any but a closing fence.
pub open spec fn literal_at_end(p: ParserModel) -> bool {
    match p.mode {
        ParserMode::Text => !closes_at_end(p),
        ParserMode::CodeBlock => !is_fence(p.marker),
    }
}

/// The end of a document drops nothing: a pending marker that stands for
/// nothing there is printed as text, then the renderer gets `EndDocument`.
pub proof fn lemma_end_flushes_marker(p: ParserModel)
    requires
        literal_at_end(p),
    ensures
        finish(p).renderer == render(
            render(p.renderer, TokenModel::Text(p.marker)),
            TokenModel::EndDocument,
        ),
        finish(p).marker.len() == 0,
        finish(p).mode == ParserMode::Text,
{
    reveal(apply_marker);
}

fn is_boundary(c: char) -> (r: bool)
    ensures
        r == boundary(c),
{
    !(is_alphanumeric(c) || c == '*' || c == '_' || c == '`')
}

fn str_all_same(s: &str, c: char) -> (r: bool)
    ensures
        r == all_same(s@, c),
{
    let n = s.unicode_len();
    let mut i: usize = 0;
    while i < n
        invariant
            n == s@.len(),
            i <= n,
            forall|j: int| 0 <= j < i ==> s@[j] == c,
        decreases n - i,
    {
        if s.get_char(i) != c {
            return false;
        }
        i += 1;
    }
    true
}

fn style_of_str(m: &str) -> (r: Option<InlineStyleToken>)
    ensures
        r == style_of(m@),
{
    let n = m.unicode_len();
    if n == 0 || n > 3 {
        return None;
    }
    if str_all_same(m, '*') {
        if n == 1 {
            Some(InlineStyleToken::OneStar)
        } else if n == 2 {
            Some(InlineStyleToken::TwoStars)
        } else {
            Some(InlineStyleToken::ThreeStars)
        }
    } else if str_all_same(m, '_') {
        if n == 1 {
            Some(InlineStyleToken::OneDash)
        } else if n == 2 {
            Some(InlineStyleToken::TwoDashes)
        } else {
            None
        }
    } else if n == 1 && str_all_same(m, '`') {
        Some(InlineStyleToken::OneQuote)
    } else {
        None
    }
}

/// Tokenizes markdown that arrives in fragments and draws it with a
/// [`TerminalRenderer`].
pub struct Parser {
    renderer: TerminalRenderer,
    current_text: String,
    current_token: String,
    previous_char: Option<char>,
    inline_style_tokens: Vec<InlineStyleToken>,
    mode: ParserMode,
}

impl View for Parser {
    type V = ParserModel;

    closed spec fn view(&self) -> ParserModel {
        ParserModel {
            renderer: render(self.renderer@, TokenModel::Text(self.current_text@)),
            marker: self.current_token@,
            prev: self.previous_char,
            styles: self.inline_style_tokens@,
            mode: self.mode,
        }
    }
}

impl Parser {
    /// Between two calls the parser holds no text back and keeps its invariant.
    pub closed spec fn wf(&self) -> bool {
        &&& self.renderer.wf()
        &&& self.current_text@.len() == 0
        &&& model_inv(self@)
    }

    /// A parser at the start of a document, drawing with `renderer`.
    pub fn new(renderer: TerminalRenderer) -> (r: Parser)
        requires
            renderer.wf(),
            renderer@.mode == ModeModel::Text(Seq::empty()),
        ensures
            r.wf(),
            r@ == (ParserModel {
                renderer: renderer@,
                marker: Seq::empty(),
                prev: None,
                styles: Seq::empty(),
                mode: ParserMode::Text,
            }),
    {
        proof {
            lemma_render_empty_text(renderer@);
        }
        let r = Parser {
            renderer,
            current_text: String::new(),
            current_token: String::new(),
            previous_char: None,
            inline_style_tokens: Vec::new(),
            mode: ParserMode::Text,
        };
        assert(r@.styles =~= Seq::<InlineStyleToken>::empty());
        r
    }

    /// Hands the text held back to the renderer.
    fn push_current_text(&mut self)
        requires
            old(self).renderer.wf(),
        ensures
            final(self).renderer.wf(),
            final(self)@ == old(self)@,
            final(self).current_text@.len() == 0,
    {
        if self.current_text.as_str().unicode_len() > 0 {
            let mut s = String::new();
            std::mem::swap(&mut s, &mut self.current_text);
            self.renderer.push_token(Token::Text(s));
        }
        proof {
            lemma_render_empty_text(self.renderer@);
        }
    }

    /// Hands a token to the renderer, after the text held back.
    fn emit(&mut self, t: Token)
        requires
            old(self).renderer.wf(),
            token_fits(old(self)@.renderer.mode, t@),
        ensures
            final(self).renderer.wf(),
            final(self)@ == emit(old(self)@, t@),
            final(self).current_text@.len() == 0,
    {
        self.push_current_text();
        self.renderer.push_token(t);
        proof {
            lemma_render_empty_text(self.renderer@);
        }
    }

    /// Adds text to what is held back.
    fn print_str(&mut self, s: &str)
        ensures
            final(self).renderer == old(self).renderer,
            final(self)@ == emit(old(self)@, TokenModel::Text(s@)),
    {
        let ghost t = self.current_text@;
        self.current_text.append(s);
        proof {
            lemma_render_text_concat(self.renderer@, t, s@);
        }
    }

    /// Adds a character to what is held back.
    fn print_char(&mut self, c: char)
        ensures
            final(self).renderer == old(self).renderer,
            final(self)@ == emit(old(self)@, TokenModel::Text(seq![c])),
    {
        let ghost t = self.current_text@;
        push_char(&mut self.current_text, c);
        proof {
            lemma_render_text_concat(self.renderer@, t, seq![c]);
            assert(t.push(c) =~= t + seq![c]);
        }
    }

    /// Prints the pending marker as text, then `c` if `print_c`.
    fn marker_as_text(&mut self, c: char, print_c: bool)
        ensures
            final(self).renderer == old(self).renderer,
            final(self)@ == (ParserModel {
                marker: Seq::empty(),
                ..emit(
                    old(self)@,
                    TokenModel::Text(
                        if print_c {
                            old(self)@.marker.push(c)
                        } else {
                            old(self)@.marker
                        },
                    ),
                )
            }),
    {
        let ghost r = self@.renderer;
        let ghost m = self@.marker;
        let mut marker = String::new();
        std::mem::swap(&mut marker, &mut self.current_token);
        self.print_str(marker.as_str());
        if print_c {
            self.print_char(c);
            proof {
                lemma_render_text_concat(r, m, seq![c]);
                assert(m.push(c) =~= m + seq![c]);
            }
        }
    }

    #[verifier::spinoff_prover]
    #[verifier::rlimit(50)]
    fn apply_text_token(&mut self, c: char, print_c: bool)
        requires
            old(self).renderer.wf(),
            model_inv(old(self)@),
            old(self).mode == ParserMode::Text,
        ensures
            final(self).renderer.wf(),
            final(self)@ == apply_marker(old(self)@, c, print_c),
    {
        reveal(apply_marker);
        let n = self.current_token.as_str().unicode_len();
        if n == 0 {
            if print_c {
                self.print_char(c);
            }
            return;
        }
        if self.previous_char.is_none() {
            if n == 3 && str_all_same(self.current_token.as_str(), '`') {
                self.emit(Token::BeginCode);
                self.current_token = String::new();
                self.mode = ParserMode::CodeBlock;
                if print_c {
                    self.print_char(c);
                }
                return;
            }
            if n >= 3 && c == '\n' && (str_all_same(self.current_token.as_str(), '-')
                || str_all_same(self.current_token.as_str(), '_')) {
                self.emit(Token::Line);
                self.current_token = String::new();
                return;
            }
            if str_all_same(self.current_token.as_str(), '#') && n <= 6 && c == ' ' {
                self.emit(Token::Heading(Level(n)));
                self.current_token = String::new();
                return;
            }
        }
        let is_begin = match self.previous_char {
            None => true,
            Some(p) => is_boundary(p),
        };
        let is_end = is_boundary(c);
        if is_begin != is_end {
            match style_of_str(self.current_token.as_str()) {
                Some(st) => {
                    let k = self.inline_style_tokens.len();
                    let closes = k > 0 && self.inline_style_tokens[k - 1] == st;
                    let marker = if closes {
                        Marker::End(st)
                    } else {
                        Marker::Begin(st)
                    };
                    self.emit(Token::InlineStyle(marker));
                    if closes {
                        self.inline_style_tokens.pop();
                    } else {
                        self.inline_style_tokens.push(st);
                    }
                    self.current_token = String::new();
                    if print_c {
                        self.print_char(c);
                    }
                    return;
                },
                None => {},
            }
        }
        self.marker_as_text(c, print_c);
    }

    fn closes_at_end(&self) -> (r: bool)
        ensures
            r == closes_at_end(self@),
    {
        let is_begin = match self.previous_char {
            None => true,
            Some(p) => is_boundary(p),
        };
        if is_begin == is_boundary('\n') {
            return false;
        }
        match style_of_str(self.current_token.as_str()) {
            Some(st) => {
                let k = self.inline_style_tokens.len();
                k > 0 && self.inline_style_tokens[k - 1] == st
            },
            None => false,
        }
    }

    fn joins_marker(&self, c: char) -> (r: bool)
        ensures
            r == joins_marker(self@, c),
    {
        if c == '*' || c == '_' {
            let k = self.inline_style_tokens.len();
            let in_code = k > 0 && self.inline_style_tokens[k - 1] == InlineStyleToken::OneQuote;
            !in_code && str_all_same(self.current_token.as_str(), c)
        } else if c == '`' {
            str_all_same(self.current_token.as_str(), c)
        } else if c == '-' || c == '#' {
            self.previous_char.is_none()
        } else {
            false
        }
    }

    fn analyse_text(&mut self, c: char)
        requires
            old(self).renderer.wf(),
            model_inv(old(self)@),
            old(self).mode == ParserMode::Text,
        ensures
            final(self).renderer.wf(),
            final(self)@ == text_step(old(self)@, c),
            model_inv(final(self)@),
    {
        proof {
            lemma_text_step_inv(self@, c);
        }
        if c == '\n' {
            self.apply_text_token('\n', false);
            self.emit(Token::Newline);
            self.previous_char = None;
        } else if self.joins_marker(c) {
            push_char(&mut self.current_token, c);
        } else {
            self.apply_text_token(c, true);
            self.previous_char = Some(c);
        }
    }

    fn apply_code_token(&mut self)
        requires
            old(self).renderer.wf(),
            model_inv(old(self)@),
            old(self).mode == ParserMode::CodeBlock,
        ensures
            final(self).renderer.wf(),
            final(self)@ == close_code_line(old(self)@),
    {
        let n = self.current_token.as_str().unicode_len();
        if n == 3 && str_all_same(self.current_token.as_str(), '`') {
            self.emit(Token::EndCode);
            self.current_token = String::new();
            self.mode = ParserMode::Text;
        } else {
            self.marker_as_text(' ', false);
        }
    }

    fn analyse_code_block(&mut self, c: char)
        requires
            old(self).renderer.wf(),
            model_inv(old(self)@),
            old(self).mode == ParserMode::CodeBlock,
        ensures
            final(self).renderer.wf(),
            final(self)@ == code_step(old(self)@, c),
            model_inv(final(self)@),
    {
        if c == '\n' {
            self.apply_code_token();
            self.emit(Token::Newline);
            self.previous_char = None;
        } else if c == '`' && self.previous_char.is_none() {
            push_char(&mut self.current_token, c);
        } else {
            self.marker_as_text(c, true);
            self.previous_char = Some(c);
        }
    }

    /// Takes a fragment of the document, of any length, cut anywhere.
    pub fn push(&mut self, text: &str)
        requires
            old(self).wf(),
        ensures
            final(self).wf(),
            final(self)@ == feed(old(self)@, text@),
    {
        let ghost start = self@;
        let ghost s = text@;
        for c in it: text.chars()
            invariant
                self.renderer.wf(),
                model_inv(self@),
                it.seq() == s,
                self@ == feed(start, s.take(it.index() as int)),
        {
            proof {
                assert(s.take(it.index() + 1).drop_last() =~= s.take(it.index() as int));
            }
            match self.mode {
                ParserMode::Text => self.analyse_text(c),
                ParserMode::CodeBlock => self.analyse_code_block(c),
            }
        }
        assert(s.take(s.len() as int) =~= s);
        self.push_current_text();
    }

    /// Ends the document: a pending marker closes the style on top or is
    /// printed as it is, the renderer gets `EndDocument`, and the parser is
    /// ready for a new document.
    pub fn end_of_document(&mut self)
        requires
            old(self).wf(),
        ensures
            final(self).wf(),
            final(self)@ == finish(old(self)@),
    {
        match self.mode {
            ParserMode::Text => {
                if self.closes_at_end() {
                    self.apply_text_token('\n', false);
                } else {
                    self.marker_as_text('\n', false);
                }
            },
            ParserMode::CodeBlock => self.apply_code_token(),
        }
        self.emit(Token::EndDocument);
        self.current_token = String::new();
        self.previous_char = None;
        self.inline_style_tokens.clear();
        self.mode = ParserMode::Text;
        assert(self@.styles =~= Seq::<InlineStyleToken>::empty());
    }

    /// Hands out the terminal operations logged so far.
    pub fn take_output(&mut self) -> (r: Vec<TermOp>)
        requires
            old(self).wf(),
        ensures
            final(self).wf(),
            r@.map_values(|op: TermOp| op@) == old(self)@.renderer.out,
            final(self)@ == (ParserModel {
                renderer: RendererModel { out: Seq::empty(), ..old(self)@.renderer },
                ..old(self)@
            }),
    {
        proof {
            lemma_render_empty_text(self.renderer@);
        }
        let r = self.renderer.take_output();
        proof {
            lemma_render_empty_text(self.renderer@);
        }
        r
    }

    /// Hands out the code blocks completed so far.
    pub fn take_code_blocks(&mut self) -> (r: Vec<CodeBlock>)
        requires
            old(self).wf(),
        ensures
            final(self).wf(),
            r@.map_values(|b: CodeBlock| b@) == old(self)@.renderer.blocks,
            final(self)@ == (ParserModel {
                renderer: RendererModel { blocks: Seq::empty(), ..old(self)@.renderer },
                ..old(self)@
            }),
    {
        proof {
            lemma_render_empty_text(self.renderer@);
        }
        let r = self.renderer.take_code_blocks();
        proof {
            lemma_render_empty_text(self.renderer@);
        }
        r
    }
}

} // verus!
