use crate::lexer::{Tok, Token, TokenType};
use vstd::prelude::*;
use vstd::string::StringExecFns;

verus! {

/// What the parser was looking for when it met a token it could not use.
#[derive(Debug, Clone, Copy, PartialEq, Eq, Structural)]
pub enum Expected {
    /// A keyword or a declared identifier that starts a statement.
    StatementStart,
    Then,
    EndIf,
    Repeat,
    EndWhile,
    Ident,
    /// The assignment operator `=`.
    Assign,
    NumberOrIdent,
    Newline,
}

/// Why a compilation stopped.
#[derive(Debug, Clone, Copy)]
pub enum ParseError<'a> {
    /// The grammar asked for `expected` and the next token was `found`.
    Unexpected { expected: Expected, found: Token<'a> },
    /// The identifier `name` was read before any `LET` declared it.
    Undeclared { name: &'a str },
}

/// What a `ParseError` is in contracts.
pub enum Fault {
    Unexpected { expected: Expected, found: Tok },
    Undeclared { name: Seq<char> },
}

impl<'a> View for ParseError<'a> {
    type V = Fault;

    open spec fn view(&self) -> Fault {
        match *self {
            ParseError::Unexpected { expected, found } => Fault::Unexpected {
                expected,
                found: found@,
            },
            ParseError::Undeclared { name } => Fault::Undeclared { name: name@ },
        }
    }
}

impl Expected {
    /// The words that a message uses for what was expected.
    pub open spec fn spec_name(self) -> Seq<char> {
        match self {
            Expected::StatementStart => "keyword/expression start"@,
            Expected::Then => "THEN"@,
            Expected::EndIf => "ENDIF"@,
            Expected::Repeat => "REPEAT"@,
            Expected::EndWhile => "ENDWHILE"@,
            Expected::Ident => "Ident"@,
            Expected::Assign => "assignment operator"@,
            Expected::NumberOrIdent => "number or ident"@,
            Expected::Newline => "newline"@,
        }
    }

    /// The words that a message uses for what was expected.
    pub fn name(self) -> (name: &'static str)
        ensures
            name@ == self.spec_name(),
    {
        match self {
            Expected::StatementStart => "keyword/expression start",
            Expected::Then => "THEN",
            Expected::EndIf => "ENDIF",
            Expected::Repeat => "REPEAT",
            Expected::EndWhile => "ENDWHILE",
            Expected::Ident => "Ident",
            Expected::Assign => "assignment operator",
            Expected::NumberOrIdent => "number or ident",
            Expected::Newline => "newline",
        }
    }
}

impl TokenType {
    /// The name of this kind, as it is written in the source of this library.
    pub open spec fn spec_name(self) -> Seq<char> {
        match self {
            TokenType::Assign => "Assign"@,
            TokenType::Equals => "Equals"@,
            TokenType::NotEqual => "NotEqual"@,
            TokenType::Greater => "Greater"@,
            TokenType::GreaterEqual => "GreaterEqual"@,
            TokenType::Less => "Less"@,
            TokenType::LessEqual => "LessEqual"@,
            TokenType::Plus => "Plus"@,
            TokenType::Minus => "Minus"@,
            TokenType::Number => "Number"@,
            TokenType::Ident => "Ident"@,
            TokenType::String => "String"@,
            TokenType::Times => "Times"@,
            TokenType::Divide => "Divide"@,
            TokenType::Newline => "Newline"@,
            TokenType::EOF => "EOF"@,
            TokenType::Unknown => "Unknown"@,
            TokenType::LET => "LET"@,
            TokenType::PRINT => "PRINT"@,
            TokenType::IF => "IF"@,
            TokenType::THEN => "THEN"@,
            TokenType::ENDIF => "ENDIF"@,
            TokenType::WHILE => "WHILE"@,
            TokenType::REPEAT => "REPEAT"@,
            TokenType::ENDWHILE => "ENDWHILE"@,
            TokenType::INPUT => "INPUT"@,
        }
    }

    /// The name of this kind.
    pub fn name(self) -> (name: &'static str)
        ensures
            name@ == self.spec_name(),
    {
        match self {
            TokenType::Assign => "Assign",
            TokenType::Equals => "Equals",
            TokenType::NotEqual => "NotEqual",
            TokenType::Greater => "Greater",
            TokenType::GreaterEqual => "GreaterEqual",
            TokenType::Less => "Less",
            TokenType::LessEqual => "LessEqual",
            TokenType::Plus => "Plus",
            TokenType::Minus => "Minus",
            TokenType::Number => "Number",
            TokenType::Ident => "Ident",
            TokenType::String => "String",
            TokenType::Times => "Times",
            TokenType::Divide => "Divide",
            TokenType::Newline => "Newline",
            TokenType::EOF => "EOF",
            TokenType::Unknown => "Unknown",
            TokenType::LET => "LET",
            TokenType::PRINT => "PRINT",
            TokenType::IF => "IF",
            TokenType::THEN => "THEN",
            TokenType::ENDIF => "ENDIF",
            TokenType::WHILE => "WHILE",
            TokenType::REPEAT => "REPEAT",
            TokenType::ENDWHILE => "ENDWHILE",
            TokenType::INPUT => "INPUT",
        }
    }
}

impl Fault {
    /// The message for this fault. It names what was expected and the token
    /// that was found, by its kind and, between double quotes, its text; or
    /// it names the identifier that was used before its declaration.
    pub open spec fn message(self) -> Seq<char> {
        match self {
            Fault::Unexpected { expected, found } => "expected "@ + expected.spec_name() + " got "@
                + found.kind.spec_name() + " \""@ + found.text + "\""@,
            Fault::Undeclared { name } => "ident "@ + name + " used before declaration"@,
        }
    }
}

impl<'a> ParseError<'a> {
    /// The message for this error.
    pub fn message(&self) -> (text: String)
        ensures
            text@ == self@.message(),
    {
        let mut text = String::new();
        match *self {
            ParseError::Unexpected { expected, found } => {
                text.append("expected ");
                text.append(expected.name());
                text.append(" got ");
                text.append(found.token_type.name());
                text.append(" \"");
                text.append(found.value);
                text.append("\"");
            },
            ParseError::Undeclared { name } => {
                text.append("ident ");
                text.append(name);
                text.append(" used before declaration");
            },
        }
        text
    }
}

} // verus!
