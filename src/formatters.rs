use vstd::prelude::*;
use crate::parser::{Parser, ParserMode, ParserModel, feed, finish};
use crate::renderer::{ModeModel, RendererModel, TerminalRenderer};
use crate::terminal::{OpModel, Output, TermOp, print_onto};

verus! {

/// Markdown drawn on a terminal.
pub type MarkdownFormatter = Parser;

/// A markdown formatter for a terminal `width` columns wide, at the start of a document.
pub fn new_markdown_formatter(width: u16) -> (r: MarkdownFormatter)
    ensures
        r.wf(),
        r@ == (ParserModel {
            renderer: RendererModel {
                mode: ModeModel::Text(Seq::empty()),
                out: Seq::empty(),
                width,
                blocks: Seq::empty(),
            },
            marker: Seq::empty(),
            prev: None,
            styles: Seq::empty(),
            mode: ParserMode::Text,
        }),
{
    Parser::new(TerminalRenderer::new(width))
}

/// A formatter that prints text as it comes, markers and all.
pub fn new_raw_formatter() -> (r: RawFormater)
    ensures
        r@ == Seq::<OpModel>::empty(),
{
    RawFormater { out: Output::new() }
}

/// Prints text unchanged.
pub struct RawFormater {
    out: Output,
}

impl View for RawFormater {
    type V = Seq<OpModel>;

    closed spec fn view(&self) -> Seq<OpModel> {
        self.out@
    }
}

impl RawFormater {
    /// Prints a fragment as it is.
    pub fn push(&mut self, text: &str)
        ensures
            final(self)@ == print_onto(old(self)@, text@),
    {
        self.out.print(text);
    }

    /// Nothing is pending at the end of a document.
    pub fn end_of_document(&mut self)
        ensures
            final(self)@ == old(self)@,
    {
    }

    /// Hands out the terminal operations logged so far.
    pub fn take_output(&mut self) -> (r: Vec<TermOp>)
        ensures
            r@.map_values(|op: TermOp| op@) == old(self)@,
            final(self)@ == Seq::<OpModel>::empty(),
    {
        self.out.take()
    }
}


/// How generated text is shown.
#[derive(Debug, PartialEq, Eq, Structural, Clone, Copy)]
pub enum FormatterChoice {
    /// Markdown, styled for the terminal.
    Markdown,
    /// The text as it is.
    Raw,
}

/// A formatter of either kind.
pub enum Formatter {
    Markdown(MarkdownFormatter),
    Raw(RawFormater),
}

/// The markdown formatter's state at the start of a document.
pub open spec fn initial_markdown(width: u16) -> ParserModel {
    ParserModel {
        renderer: RendererModel {
            mode: ModeModel::Text(Seq::empty()),
            out: Seq::empty(),
            width,
            blocks: Seq::empty(),
        },
        marker: Seq::empty(),
        prev: None,
        styles: Seq::empty(),
        mode: ParserMode::Text,
    }
}

impl Formatter {
    pub closed spec fn wf(&self) -> bool {
        match self {
            Formatter::Markdown(p) => p.wf(),
            Formatter::Raw(_) => true,
        }
    }

    /// The formatter that `choice` names, for a terminal `width` columns wide.
    pub fn new(choice: FormatterChoice, width: u16) -> (r: Formatter)
        ensures
            r.wf(),
            choice == FormatterChoice::Markdown ==> (r matches Formatter::Markdown(p) && p@ == initial_markdown(width)),
            choice == FormatterChoice::Raw ==> (r matches Formatter::Raw(f) && f@ == Seq::<OpModel>::empty()),
    {
        match choice {
            FormatterChoice::Markdown => Formatter::Markdown(new_markdown_formatter(width)),
            FormatterChoice::Raw => Formatter::Raw(new_raw_formatter()),
        }
    }

    /// Takes a fragment of the text.
    pub fn push(&mut self, text: &str)
        requires
            old(self).wf(),
        ensures
            final(self).wf(),
            *old(self) matches Formatter::Markdown(p) ==> (*final(self) matches Formatter::Markdown(q) && q@ == feed(p@, text@)),
            *old(self) matches Formatter::Raw(f) ==> (*final(self) matches Formatter::Raw(g) && g@ == print_onto(f@, text@)),
    {
        match self {
            Formatter::Markdown(p) => p.push(text),
            Formatter::Raw(f) => f.push(text),
        }
    }

    /// Ends the document.
    pub fn end_of_document(&mut self)
        requires
            old(self).wf(),
        ensures
            final(self).wf(),
            *old(self) matches Formatter::Markdown(p) ==> (*final(self) matches Formatter::Markdown(q) && q@ == finish(p@)),
            *old(self) matches Formatter::Raw(f) ==> (*final(self) matches Formatter::Raw(g) && g@ == f@),
    {
        match self {
            Formatter::Markdown(p) => p.end_of_document(),
            Formatter::Raw(f) => f.end_of_document(),
        }
    }

    /// Hands out the terminal operations logged so far.
    pub fn take_output(&mut self) -> (r: Vec<TermOp>)
        requires
            old(self).wf(),
        ensures
            final(self).wf(),
            *old(self) matches Formatter::Markdown(p) ==> (*final(self) matches Formatter::Markdown(q)
                && r@.map_values(|op: TermOp| op@) == p@.renderer.out && q@ == (ParserModel {
                renderer: RendererModel { out: Seq::empty(), ..p@.renderer },
                ..p@
            })),
            *old(self) matches Formatter::Raw(f) ==> (*final(self) matches Formatter::Raw(g) && r@.map_values(
                |op: TermOp| op@,
            ) == f@ && g@ == Seq::<OpModel>::empty()),
    {
        match self {
            Formatter::Markdown(p) => p.take_output(),
            Formatter::Raw(f) => f.take_output(),
        }
    }
}

} // verus!
