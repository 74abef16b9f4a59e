use vstd::prelude::*;

verus! {

/// Width, in digits, of the line counter in a code block's gutter.
pub const CODE_BLOCK_COUNTER_SPACE: usize = 3;

/// Blank columns on each side of the gutter's counter.
pub const CODE_BLOCK_MARGIN: usize = 1;

/// Columns taken by a code block's gutter before its vertical bar.
pub const CODE_BLOCK_GUTTER: usize = 5;

/// Horizontal line.
pub const LINE_CHAR: char = '─';

/// Vertical bar of the gutter.
pub const BAR_CHAR: char = '│';

/// Plug of the separator that opens a code block.
pub const PLUG_DOWN_CHAR: char = '┬';

/// Plug of the separator that closes a code block.
pub const PLUG_UP_CHAR: char = '┴';

/// A text attribute of the terminal.
#[derive(Debug, PartialEq, Eq, Structural, Clone, Copy)]
pub enum Attribute {
    Bold,
    Italic,
    Underlined,
    Reverse,
}

/// A foreground colour of the terminal.
#[derive(Debug, PartialEq, Eq, Structural, Clone, Copy)]
pub enum Color {
    Yellow,
}

/// One operation on the terminal.
#[derive(Debug, PartialEq, Clone)]
pub enum TermOp {
    /// Print text at the cursor.
    Print(String),
    /// Reset every attribute and the colours to their defaults.
    ResetStyle,
    /// Switch an attribute on.
    SetAttribute(Attribute),
    /// Set the foreground colour.
    SetForegroundColor(Color),
    /// Move the cursor to a column of the current line.
    MoveToColumn(u16),
}

/// A terminal operation as a mathematical value.
pub enum OpModel {
    Print(Seq<char>),
    ResetStyle,
    SetAttribute(Attribute),
    SetForegroundColor(Color),
    MoveToColumn(u16),
}

impl View for TermOp {
    type V = OpModel;

    open spec fn view(&self) -> OpModel {
        match self {
            TermOp::Print(s) => OpModel::Print(s@),
            TermOp::ResetStyle => OpModel::ResetStyle,
            TermOp::SetAttribute(a) => OpModel::SetAttribute(*a),
            TermOp::SetForegroundColor(c) => OpModel::SetForegroundColor(*c),
            TermOp::MoveToColumn(n) => OpModel::MoveToColumn(*n),
        }
    }
}

/// The log after printing `s`: text printed right after text joins the same
/// `Print`, so a log never holds two `Print`s in a row nor an empty one.
pub open spec fn print_onto(log: Seq<OpModel>, s: Seq<char>) -> Seq<OpModel> {
    if s.len() == 0 {
        log
    } else if log.len() > 0 && log.last() is Print {
        log.drop_last().push(OpModel::Print(log.last()->Print_0 + s))
    } else {
        log.push(OpModel::Print(s))
    }
}

/// Printing `a` then `b` logs what printing `a + b` logs.
pub proof fn lemma_print_onto_concat(log: Seq<OpModel>, a: Seq<char>, b: Seq<char>)
    ensures
        print_onto(print_onto(log, a), b) == print_onto(log, a + b),
{
    if a.len() == 0 {
        assert(a + b =~= b);
    } else if b.len() == 0 {
        assert(a + b =~= a);
    } else if log.len() > 0 && log.last() is Print {
        let t = log.last()->Print_0;
        let l1 = log.drop_last().push(OpModel::Print(t + a));
        assert(l1.drop_last() =~= log.drop_last());
        assert(t + a + b =~= t + (a + b));
    } else {
        let l1 = log.push(OpModel::Print(a));
        assert(l1.drop_last() =~= log);
    }
}

/// `s` without its last character; empty stays empty.
pub open spec fn without_last(s: Seq<char>) -> Seq<char> {
    if s.len() > 0 {
        s.drop_last()
    } else {
        s
    }
}

/// Relies on `String::pop`: the last character, if any, is taken off.
#[verifier::external_body]
pub(crate) fn pop_char(s: &mut String)
    ensures
        final(s)@ == without_last(old(s)@),
{
    s.pop();
}

/// `n` copies of `c`.
pub open spec fn repeat_spec(c: char, n: nat) -> Seq<char> {
    Seq::new(n, |_i: int| c)
}

/// Relies on `String::push`: the character is appended.
#[verifier::external_body]
pub(crate) fn push_char(s: &mut String, c: char)
    ensures
        final(s)@ == old(s)@.push(c),
{
    s.push(c);
}

/// A string of `n` copies of `c`.
pub fn repeat_char(c: char, n: usize) -> (r: String)
    ensures
        r@ == repeat_spec(c, n as nat),
{
    let mut s = String::new();
    let mut i: usize = 0;
    while i < n
        invariant
            i <= n,
            s@ == repeat_spec(c, i as nat),
        decreases n - i,
    {
        push_char(&mut s, c);
        i += 1;
        assert(s@ =~= repeat_spec(c, i as nat));
    }
    s
}

/// The decimal digits of `n`, without leading zeros (`0` is `"0"`).
pub open spec fn decimal(n: nat) -> Seq<char>
    decreases n,
{
    if n < 10 {
        seq![digit_char(n)]
    } else {
        decimal(n / 10).push(digit_char(n % 10))
    }
}

pub open spec fn digit_char(d: nat) -> char {
    if d < 10 {
        ((d + 48) as u8) as char
    } else {
        '?'
    }
}

/// The decimal digits of `n`, padded on the left with `0` to `width` digits.
pub open spec fn zero_padded(n: nat, width: nat) -> Seq<char> {
    let d = decimal(n);
    if d.len() < width {
        repeat_spec('0', (width - d.len()) as nat) + d
    } else {
        d
    }
}

fn decimal_string(n: u32) -> (r: String)
    ensures
        r@ == decimal(n as nat),
    decreases n,
{
    if n < 10 {
        let mut s = String::new();
        push_char(&mut s, ((n as u8) + 48) as char);
        assert(s@ =~= decimal(n as nat));
        s
    } else {
        let mut s = decimal_string(n / 10);
        push_char(&mut s, (((n % 10) as u8) + 48) as char);
        s
    }
}

/// The gutter printed before the first text of line `n` of a code block:
/// margin, counter on three digits, margin, bar, margin.
pub open spec fn gutter(n: nat) -> Seq<char> {
    seq![' '] + zero_padded(n, CODE_BLOCK_COUNTER_SPACE as nat) + seq![' ', BAR_CHAR, ' ']
}

pub fn gutter_string(n: u32) -> (r: String)
    ensures
        r@ == gutter(n as nat),
{
    let digits = decimal_string(n);
    let dlen = digits.as_str().unicode_len();
    let mut s = String::new();
    push_char(&mut s, ' ');
    if dlen < CODE_BLOCK_COUNTER_SPACE {
        let pad = repeat_char('0', CODE_BLOCK_COUNTER_SPACE - dlen);
        s.append(pad.as_str());
    }
    s.append(digits.as_str());
    push_char(&mut s, ' ');
    push_char(&mut s, BAR_CHAR);
    push_char(&mut s, ' ');
    assert(s@ =~= gutter(n as nat));
    s
}

/// A code block's separator on a terminal `width` columns wide: a line whose
/// column after the gutter holds a plug.
pub open spec fn separator(width: nat, closing: bool) -> Seq<char> {
    let rest: nat = if width > CODE_BLOCK_GUTTER + 1 {
        (width - CODE_BLOCK_GUTTER - 1) as nat
    } else {
        0
    };
    repeat_spec(LINE_CHAR, CODE_BLOCK_GUTTER as nat) + seq![
        if closing {
            PLUG_UP_CHAR
        } else {
            PLUG_DOWN_CHAR
        },
    ] + repeat_spec(LINE_CHAR, rest)
}

pub fn separator_string(width: u16, closing: bool) -> (r: String)
    ensures
        r@ == separator(width as nat, closing),
{
    let mut s = repeat_char(LINE_CHAR, CODE_BLOCK_GUTTER);
    push_char(&mut s, if closing { PLUG_UP_CHAR } else { PLUG_DOWN_CHAR });
    let w = width as usize;
    let rest: usize = if w > CODE_BLOCK_GUTTER + 1 { w - CODE_BLOCK_GUTTER - 1 } else { 0 };
    let tail = repeat_char(LINE_CHAR, rest);
    s.append(tail.as_str());
    assert(s@ =~= separator(width as nat, closing));
    s
}

/// A horizontal line `width` columns wide, one column at least.
pub open spec fn rule(width: nat) -> Seq<char> {
    repeat_spec(LINE_CHAR, if width > 0 { width } else { 1 })
}

pub fn rule_string(width: usize) -> (r: String)
    ensures
        r@ == rule(width as nat),
{
    repeat_char(LINE_CHAR, if width > 0 { width } else { 1 })
}

/// A log of terminal operations, in the order they are to be performed.
pub struct Output {
    pub ops: Vec<TermOp>,
}

impl View for Output {
    type V = Seq<OpModel>;

    open spec fn view(&self) -> Seq<OpModel> {
        self.ops@.map_values(|op: TermOp| op@)
    }
}

impl Output {
    pub fn new() -> (r: Output)
        ensures
            r@ == Seq::<OpModel>::empty(),
    {
        let r = Output { ops: Vec::new() };
        assert(r@ =~= Seq::<OpModel>::empty());
        r
    }

    /// Logs an operation other than a `Print`.
    pub fn push(&mut self, op: TermOp)
        requires
            !(op is Print),
        ensures
            final(self)@ == old(self)@.push(op@),
    {
        self.ops.push(op);
        assert(self@ =~= old(self)@.push(op@));
    }

    /// Logs the printing of `s`, joined to a `Print` that ends the log.
    pub fn print(&mut self, s: &str)
        ensures
            final(self)@ == print_onto(old(self)@, s@),
    {
        if s.unicode_len() == 0 {
            return;
        }
        let last = self.ops.pop();
        match last {
            Some(TermOp::Print(t)) => {
                let mut t = t;
                t.append(s);
                self.ops.push(TermOp::Print(t));
                assert(self@ =~= old(self)@.drop_last().push(
                    OpModel::Print(old(self)@.last()->Print_0 + s@),
                ));
            },
            Some(op) => {
                self.ops.push(op);
                self.ops.push(TermOp::Print(String::from_str(s)));
                assert(self.ops@.drop_last() =~= old(self).ops@);
                assert(self@ =~= old(self)@.push(OpModel::Print(s@)));
            },
            None => {
                self.ops.push(TermOp::Print(String::from_str(s)));
                assert(self@ =~= old(self)@.push(OpModel::Print(s@)));
            },
        }
    }

    /// Hands out the operations logged so far and empties the log.
    pub fn take(&mut self) -> (r: Vec<TermOp>)
        ensures
            r@.map_values(|op: TermOp| op@) == old(self)@,
            final(self)@ == Seq::<OpModel>::empty(),
    {
        let mut r = Vec::new();
        std::mem::swap(&mut r, &mut self.ops);
        assert(self@ =~= Seq::<OpModel>::empty());
        r
    }
}

} // verus!
