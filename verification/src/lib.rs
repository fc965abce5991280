//! A decoder for Team Fortress 2 demo recordings.
//!
//! A demo is a recording of a game as the network saw it: a head, and then
//! packets of messages, packed bit by bit. [`demo::parser::parse`] decodes a
//! whole file and shows it to an [`Analyser`]; the modules under [`demo`]
//! decode the parts, each against a statement of what the bits mean.
pub mod bits;
pub mod demo;
pub mod roundtrip;
pub mod stream;
pub mod text;
pub mod writer;

pub use crate::demo::data::MaybeUtf8String;
pub use crate::demo::header::Header;
pub use crate::demo::message::{Message, MessageType};
pub use crate::demo::parser::{parse, Analyser, ParseError, ParseOutcome, ParserState};
pub use crate::stream::{ReadError, Stream};
pub use crate::writer::Writer;
