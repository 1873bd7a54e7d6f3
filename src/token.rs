//! Tokens of VM source text.
use vstd::prelude::*;

verus! {

#[derive(Debug, PartialEq, Eq, Structural, Clone, Copy)]
pub enum TokenType {
    Integer,
    Identifier,
    Newline,
}

/// The value an integer token carries.
#[derive(Debug, PartialEq, Eq, Structural, Clone, Copy)]
pub enum Value {
    Empty,
    Integer(i16),
}

/// A token, with the line and column (both from 1) where it starts.
#[derive(Debug)]
pub struct Token<'a> {
    pub type_: TokenType,
    pub lexeme: &'a str,
    pub line: usize,
    pub column: usize,
    pub value: Value,
}

impl<'a> Token<'a> {
    /// A token without a value.
    pub fn new(type_: TokenType, lexeme: &'a str, line: usize, column: usize) -> (r: Token<'a>)
        ensures
            r.type_ == type_,
            r.lexeme == lexeme,
            r.line == line,
            r.column == column,
            r.value == Value::Empty,
    {
        Token { type_, lexeme, line, column, value: Value::Empty }
    }

    /// The same token carrying `value`.
    pub fn with_value(self, value: Value) -> (r: Token<'a>)
        ensures
            r.type_ == self.type_,
            r.lexeme == self.lexeme,
            r.line == self.line,
            r.column == self.column,
            r.value == value,
    {
        let mut t = self;
        t.value = value;
        t
    }
}

} // verus!
