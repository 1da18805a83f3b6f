//! The text TextGrid format (`ooTextFile`), long and short.
pub mod escape;
pub mod integers;
pub mod lines;
pub mod offsets;
pub mod parser;
pub mod round_trip;
pub mod scan_lemmas;
pub mod stringifier;
pub mod tokenizer;

pub use escape::escape_text;
pub use parser::{parse, ParseError};
pub use stringifier::{stringify_long, stringify_short};
pub use tokenizer::{TokenFlag, TokenKind, TokenizeError};
