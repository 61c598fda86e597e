//! Styles for text on a terminal, read from style strings.
//!
//! A style string such as `bold red underline green blink` names at most two
//! colours, the foreground before the background, and any number of
//! attributes. A decoration style string such as `box blue` says what is
//! drawn around a piece of text, and in which style. The functions of this
//! crate read such strings and return a `Style`, or the reason why a string
//! is refused.

pub mod attributes;
pub mod color;
pub mod decoration;
pub mod error;
pub mod parser;
pub mod settled;
pub mod style;
pub mod terminal;
pub mod text;
pub mod whole;
pub mod written;

pub use attributes::{DecorationAttributes, DecorationFlag, DecorationKind};
pub use color::{ansi_color_name_to_number, color_from_rgb_or_ansi_code_with_default};
pub use decoration::{extract_special_decoration_attribute, DecorationStyle};
pub use error::StyleError;
pub use parser::parse_ansi_term_style;
pub use style::Style;
pub use terminal::{Color, TerminalStyle};
