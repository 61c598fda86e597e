//! The ways in which a style string is refused.

use vstd::prelude::*;

verus! {

/// Why a style string was refused.
#[derive(Clone, Debug, PartialEq, Eq)]
pub enum StyleError {
    /// The string names more than two colours. It is kept as it was given.
    InvalidStyleString { style_string: String },
    /// `syntax` stands where the background colour is expected.
    SyntaxAsBackground,
    /// `raw` stands in a decoration style.
    RawInDecoration,
    /// `syntax` stands in a decoration style.
    SyntaxInDecoration,
    /// The token names no colour.
    InvalidColor { token: String },
}

/// A `StyleError` with its strings as character sequences.
pub enum StyleErrorView {
    InvalidStyleString { style_string: Seq<char> },
    SyntaxAsBackground,
    RawInDecoration,
    SyntaxInDecoration,
    InvalidColor { token: Seq<char> },
}

impl View for StyleError {
    type V = StyleErrorView;

    /// The error with its strings as character sequences.
    open spec fn view(&self) -> StyleErrorView {
        match self {
            StyleError::InvalidStyleString { style_string } => StyleErrorView::InvalidStyleString {
                style_string: style_string@,
            },
            StyleError::SyntaxAsBackground => StyleErrorView::SyntaxAsBackground,
            StyleError::RawInDecoration => StyleErrorView::RawInDecoration,
            StyleError::SyntaxInDecoration => StyleErrorView::SyntaxInDecoration,
            StyleError::InvalidColor { token } => StyleErrorView::InvalidColor { token: token@ },
        }
    }
}

/// A result with its error, if it has one, as a `StyleErrorView`.
pub open spec fn outcome<T>(r: Result<T, StyleError>) -> Result<T, StyleErrorView> {
    match r {
        Ok(value) => Ok(value),
        Err(error) => Err(error@),
    }
}

/// The message that tells the user why a style string was refused.
pub open spec fn message_of(error: StyleErrorView) -> Seq<char> {
    match error {
        StyleErrorView::InvalidStyleString { style_string } => "Invalid style string: "@
            + style_string + ". See the STYLES section of delta --help."@,
        StyleErrorView::SyntaxAsBackground => "You have used the special color 'syntax' as a background color (second color in a style string). It may only be used as a foreground color (first color in a style string)."@,
        StyleErrorView::RawInDecoration => "'raw' may not be used in a decoration style."@,
        StyleErrorView::SyntaxInDecoration => "'syntax' may not be used in a decoration style."@,
        StyleErrorView::InvalidColor { token } => "Invalid color or style attribute: "@ + token,
    }
}

impl StyleError {
    /// The message that tells the user why a style string was refused. It
    /// names the string or the token that is at fault as it stands in the
    /// error.
    pub fn message(&self) -> (message: String)
        ensures
            message@ == message_of(self@),
    {
        match self {
            StyleError::InvalidStyleString { style_string } => {
                let mut message = "Invalid style string: ".to_owned();
                message.append(style_string.as_str());
                message.append(". See the STYLES section of delta --help.");
                message
            },
            StyleError::SyntaxAsBackground => "You have used the special color 'syntax' as a background color (second color in a style string). It may only be used as a foreground color (first color in a style string).".to_owned(),
            StyleError::RawInDecoration => "'raw' may not be used in a decoration style.".to_owned(),
            StyleError::SyntaxInDecoration => "'syntax' may not be used in a decoration style.".to_owned(),
            StyleError::InvalidColor { token } => {
                let mut message = "Invalid color or style attribute: ".to_owned();
                message.append(token.as_str());
                message
            },
        }
    }
}

} // verus!
