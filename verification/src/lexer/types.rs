use vstd::prelude::*;

use crate::lsp_types::{Range, SpecRange};

verus! {

/// The fourteen structural glyphs of the grammar. `Ellipsis` is the
/// three-character `...`; every other punctuator is a single character.
#[derive(Debug, Clone, Copy, PartialEq, Eq, Structural)]
pub enum Punctuator {
    ExclamationMark,
    DollarSign,
    Ampersand,
    LeftParenthesis,
    RightParenthesis,
    Ellipsis,
    Colon,
    EqualSign,
    AtSign,
    LeftBracket,
    RightBracket,
    LeftBrace,
    RightBrace,
    VerticalBar,
}

/// The characters that begin a single-character punctuator token.
pub open spec fn spec_is_punctuator_char(c: char) -> bool {
    c == '!' || c == '$' || c == '&' || c == '(' || c == ')' || c == ':' || c == '=' || c == '@'
        || c == '[' || c == ']' || c == '{' || c == '}' || c == '|'
}

/// The punctuator each glyph stands for; `.` stands for the ellipsis.
pub open spec fn spec_char_to_punctuator(c: char) -> Punctuator {
    if c == '!' {
        Punctuator::ExclamationMark
    } else if c == '$' {
        Punctuator::DollarSign
    } else if c == '&' {
        Punctuator::Ampersand
    } else if c == '(' {
        Punctuator::LeftParenthesis
    } else if c == ')' {
        Punctuator::RightParenthesis
    } else if c == '.' {
        Punctuator::Ellipsis
    } else if c == ':' {
        Punctuator::Colon
    } else if c == '=' {
        Punctuator::EqualSign
    } else if c == '@' {
        Punctuator::AtSign
    } else if c == '[' {
        Punctuator::LeftBracket
    } else if c == ']' {
        Punctuator::RightBracket
    } else if c == '{' {
        Punctuator::LeftBrace
    } else if c == '}' {
        Punctuator::RightBrace
    } else {
        Punctuator::VerticalBar
    }
}

pub fn char_to_punctuator(c: char) -> (r: Punctuator)
    requires
        spec_is_punctuator_char(c) || c == '.',
    ensures
        r == spec_char_to_punctuator(c),
{
    match c {
        '!' => Punctuator::ExclamationMark,
        '$' => Punctuator::DollarSign,
        '&' => Punctuator::Ampersand,
        '(' => Punctuator::LeftParenthesis,
        ')' => Punctuator::RightParenthesis,
        '.' => Punctuator::Ellipsis,
        ':' => Punctuator::Colon,
        '=' => Punctuator::EqualSign,
        '@' => Punctuator::AtSign,
        '[' => Punctuator::LeftBracket,
        ']' => Punctuator::RightBracket,
        '{' => Punctuator::LeftBrace,
        '}' => Punctuator::RightBrace,
        _ => Punctuator::VerticalBar,
    }
}

/// What kind of token was scanned, together with its payload. A float value
/// is carried as the exact literal text that was consumed (sign, integer
/// digits, dot, fractional digits); an int value is carried decoded.
#[derive(Debug, Clone, PartialEq)]
pub enum LexicalTokenType {
    Punctuator(Punctuator),
    Name(String),
    IntValue(i32),
    FloatValue(String),
    StringValue(String),
    EOF,
}

/// The mathematical model of a `LexicalTokenType`.
pub enum SpecTokenType {
    Punctuator(Punctuator),
    Name(Seq<char>),
    IntValue(int),
    FloatValue(Seq<char>),
    StringValue(Seq<char>),
    EOF,
}

impl View for LexicalTokenType {
    type V = SpecTokenType;

    open spec fn view(&self) -> SpecTokenType {
        match self {
            LexicalTokenType::Punctuator(p) => SpecTokenType::Punctuator(*p),
            LexicalTokenType::Name(s) => SpecTokenType::Name(s@),
            LexicalTokenType::IntValue(v) => SpecTokenType::IntValue(*v as int),
            LexicalTokenType::FloatValue(s) => SpecTokenType::FloatValue(s@),
            LexicalTokenType::StringValue(s) => SpecTokenType::StringValue(s@),
            LexicalTokenType::EOF => SpecTokenType::EOF,
        }
    }
}

/// One lexical token: its kind and the source range it spans.
#[derive(Debug, Clone, PartialEq)]
pub struct LexicalToken {
    pub token_type: LexicalTokenType,
    pub position: Range,
}

/// The mathematical model of a `LexicalToken`.
pub struct SpecToken {
    pub token_type: SpecTokenType,
    pub position: SpecRange,
}

impl View for LexicalToken {
    type V = SpecToken;

    open spec fn view(&self) -> SpecToken {
        SpecToken { token_type: self.token_type@, position: self.position@ }
    }
}

impl LexicalToken {
    pub fn new(token_type: LexicalTokenType, position: Range) -> (r: LexicalToken)
        ensures
            r.token_type == token_type,
            r.position == position,
    {
        LexicalToken { token_type, position }
    }
}

} // verus!
