use vstd::prelude::*;

verus! {

/// An inline style, named after the marker that opens and closes it.
#[derive(Debug, PartialEq, Eq, Structural, Clone, Copy)]
pub enum InlineStyleToken {
    /// `*`: italic.
    OneStar,
    /// `**`: bold.
    TwoStars,
    /// `***`: bold italic.
    ThreeStars,
    /// `_`: italic.
    OneDash,
    /// `__`: underline.
    TwoDashes,
    /// `` ` ``: inline code.
    OneQuote,
}

/// Whether a style marker opens or closes its style.
#[derive(Debug, PartialEq, Eq, Structural, Clone, Copy)]
pub enum Marker {
    Begin(InlineStyleToken),
    End(InlineStyleToken),
}

/// A heading level: the number of `#` that open the heading.
#[derive(Debug, PartialEq, Eq, Structural, Clone, Copy)]
pub struct Level(pub usize);

/// What the parser hands to the renderer.
#[derive(Debug, PartialEq, Clone)]
pub enum Token {
    /// Literal text, with every recognised marker taken out.
    Text(String),
    /// End of a line.
    Newline,
    /// A style opens or closes.
    InlineStyle(Marker),
    /// A fence opens a code block.
    BeginCode,
    /// A fence closes a code block.
    EndCode,
    /// A horizontal rule.
    Line,
    /// A heading of the given level starts.
    Heading(Level),
    /// No more tokens will come.
    EndDocument,
}

/// A token as a mathematical value: text is a sequence of characters.
pub enum TokenModel {
    Text(Seq<char>),
    Newline,
    InlineStyle(Marker),
    BeginCode,
    EndCode,
    Line,
    Heading(nat),
    EndDocument,
}

impl View for Token {
    type V = TokenModel;

    open spec fn view(&self) -> TokenModel {
        match self {
            Token::Text(s) => TokenModel::Text(s@),
            Token::Newline => TokenModel::Newline,
            Token::InlineStyle(m) => TokenModel::InlineStyle(*m),
            Token::BeginCode => TokenModel::BeginCode,
            Token::EndCode => TokenModel::EndCode,
            Token::Line => TokenModel::Line,
            Token::Heading(l) => TokenModel::Heading(l.0 as nat),
            Token::EndDocument => TokenModel::EndDocument,
        }
    }
}

} // verus!
