//! Streaming markdown rendering for a terminal, with the helpers around it.
//!
//! Text fragments go into a [`parser::Parser`], which reads them one character
//! at a time and hands tokens to a [`renderer::TerminalRenderer`]. The renderer
//! does no I/O: it logs terminal operations ([`terminal::TermOp`]) that the
//! caller takes and performs, and it collects the code blocks it draws.
//!
//! Besides: stop-text matching for generated output ([`stop`]), prompt
//! placeholders ([`template`]), base64url ([`base64url`]), prompt types
//! ([`prompt`]), the collection of code blocks to run ([`runner`]) and
//! byte-stream splitting ([`utils`]).

pub mod token;
pub mod terminal;
pub mod renderer;
pub mod parser;
pub mod formatters;
pub mod stop;
pub mod base64url;
pub mod prompt;
pub mod runner;
pub mod utils;
pub mod template;
