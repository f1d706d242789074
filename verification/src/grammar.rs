use crate::error::{Expected, Fault};
use crate::lexer::{Tok, TokenType};
use vstd::prelude::*;

verus! {

impl TokenType {
    /// `+` or `-`.
    pub open spec fn is_additive(self) -> bool {
        self == TokenType::Plus || self == TokenType::Minus
    }

    /// One of the six comparison operators.
    pub open spec fn is_comparison(self) -> bool {
        match self {
            TokenType::Equals
            | TokenType::NotEqual
            | TokenType::Greater
            | TokenType::GreaterEqual
            | TokenType::Less
            | TokenType::LessEqual => true,
            _ => false,
        }
    }

    /// A keyword that opens a statement.
    pub open spec fn opens_statement(self) -> bool {
        match self {
            TokenType::PRINT
            | TokenType::IF
            | TokenType::WHILE
            | TokenType::LET
            | TokenType::INPUT => true,
            _ => false,
        }
    }
}

/// The state of a compilation: the tokens not yet used, the token used last,
/// the identifiers declared so far, the text emitted so far, and the fault
/// that stopped the compilation, if one did. Every step leaves a stopped
/// machine as it is.
pub struct Machine {
    pub input: Seq<Tok>,
    pub previous: Tok,
    pub declared: Set<Seq<char>>,
    pub output: Seq<char>,
    pub fault: Option<Fault>,
}

impl Machine {
    /// The machine that has `input` before it and has read none of it yet.
    /// Until its first move the current token is the unset one, which stands
    /// ahead of the input, and so is the previous token.
    pub open spec fn start(input: Seq<Tok>) -> Machine {
        Machine {
            input: seq![Tok::unset()] + input,
            previous: Tok::unset(),
            declared: Set::empty(),
            output: Seq::empty(),
            fault: None,
        }
    }

    /// The current token. Behind the last token stands `EOF`.
    pub open spec fn peek(self) -> Tok {
        if self.input.len() > 0 {
            self.input[0]
        } else {
            Tok { kind: TokenType::EOF, text: Seq::empty() }
        }
    }

    /// Appends `text` to the output.
    pub open spec fn emit(self, text: Seq<char>) -> Machine {
        if self.fault is Some {
            self
        } else {
            Machine { output: self.output + text, ..self }
        }
    }

    /// Moves on to the next token; the current one becomes the previous one.
    /// `EOF` is never left behind: there the current token stays.
    pub open spec fn shift(self) -> Machine {
        if self.fault is Some {
            self
        } else if self.input.len() == 0 || self.input[0].kind == TokenType::EOF {
            Machine { previous: self.peek(), ..self }
        } else {
            Machine { input: self.input.drop_first(), previous: self.peek(), ..self }
        }
    }

    /// Emits the current token's text and moves on.
    pub open spec fn copy(self) -> Machine {
        self.emit(self.peek().text).shift()
    }

    /// Emits `text` in place of the current token and moves on.
    pub open spec fn replace(self, text: Seq<char>) -> Machine {
        self.emit(text).shift()
    }

    /// Stops with `fault`.
    pub open spec fn fail(self, fault: Fault) -> Machine {
        if self.fault is Some {
            self
        } else {
            Machine { fault: Some(fault), ..self }
        }
    }

    /// Stops because `expected` was asked for and the current token is another.
    pub open spec fn reject(self, expected: Expected) -> Machine {
        self.fail(Fault::Unexpected { expected, found: self.peek() })
    }

    /// Records the current token's text as a declared identifier.
    pub open spec fn declare(self) -> Machine {
        if self.fault is Some {
            self
        } else {
            Machine { declared: self.declared.insert(self.peek().text), ..self }
        }
    }

    /// Copies the current token if it is of kind `kind`, and stops otherwise.
    pub open spec fn expect_copy(self, kind: TokenType, expected: Expected) -> Machine {
        if self.fault is Some {
            self
        } else if self.peek().kind == kind {
            self.copy()
        } else {
            self.reject(expected)
        }
    }

    /// Replaces the current token by `text` if it is of kind `kind`, and stops
    /// otherwise.
    pub open spec fn expect_replace(
        self,
        kind: TokenType,
        expected: Expected,
        text: Seq<char>,
    ) -> Machine {
        if self.fault is Some {
            self
        } else if self.peek().kind == kind {
            self.replace(text)
        } else {
            self.reject(expected)
        }
    }

    /// `primary := Number | Ident`. A number gets the suffix `.f`; an
    /// identifier must have been declared.
    #[verifier::opaque]
    pub open spec fn primary(self) -> Machine {
        if self.fault is Some {
            self
        } else if self.peek().kind == TokenType::Number {
            self.copy().emit(".f"@)
        } else if self.peek().kind == TokenType::Ident {
            if self.declared.contains(self.peek().text) {
                self.copy()
            } else {
                self.fail(Fault::Undeclared { name: self.peek().text })
            }
        } else {
            self.reject(Expected::NumberOrIdent)
        }
    }

    /// `unary := [ "+" | "-" ] primary`.
    #[verifier::opaque]
    pub open spec fn unary(self) -> Machine {
        if self.fault is None && self.peek().kind.is_additive() {
            self.copy().primary()
        } else {
            self.primary()
        }
    }

    /// `term := unary [ ("+" | "-") unary ]`: at most one operator.
    #[verifier::opaque]
    pub open spec fn term(self) -> Machine {
        let left = self.unary();
        if left.fault is None && left.peek().kind.is_additive() {
            left.copy().unary()
        } else {
            left
        }
    }

    /// `{ ("+" | "-") term }`: what follows the first term of an expression.
    pub open spec fn more_terms(self) -> Machine
        decreases self.input.len(),
    {
        if self.fault is None && self.peek().kind.is_additive() {
            proof {
                lemma_term_input(self.copy());
            }
            self.copy().term().more_terms()
        } else {
            self
        }
    }

    /// `expression := term { ("+" | "-") term }`.
    #[verifier::opaque]
    pub open spec fn expression(self) -> Machine {
        self.term().more_terms()
    }

    /// `comparison := expression [ comparison-operator expression ]`.
    #[verifier::opaque]
    pub open spec fn comparison(self) -> Machine {
        let left = self.expression();
        if left.fault is None && left.peek().kind.is_comparison() {
            left.copy().expression()
        } else {
            left
        }
    }

    /// The end of a statement: `;` is emitted, then a `Newline` token is copied.
    pub open spec fn newline(self) -> Machine {
        self.emit(";"@).expect_copy(TokenType::Newline, Expected::Newline)
    }

    /// Whether the current token is an identifier that no `LET` has declared.
    pub open spec fn at_undeclared(self) -> bool {
        self.peek().kind == TokenType::Ident && !self.declared.contains(self.peek().text)
    }

    /// Whether the current token starts a statement: one of `PRINT`, `IF`,
    /// `WHILE`, `LET`, `INPUT`, or a declared identifier.
    pub open spec fn at_statement(self) -> bool {
        self.peek().kind.opens_statement() || (self.peek().kind == TokenType::Ident
            && self.declared.contains(self.peek().text))
    }

    /// `PRINT (String | expression) NEWLINE`: a string is copied as it is, an
    /// expression is printed with the format `%f`.
    #[verifier::opaque]
    pub open spec fn print_statement(self) -> Machine {
        let after = self.replace("printf("@);
        let argument = if after.fault is None && after.peek().kind == TokenType::String {
            after.copy()
        } else {
            after.emit("\"%f\", "@).expression()
        };
        argument.emit(")"@).newline()
    }

    /// `LET Ident "=" expression NEWLINE`. The identifier counts as declared
    /// from its own right-hand side on.
    #[verifier::opaque]
    pub open spec fn let_statement(self) -> Machine {
        let after = self.replace("float "@);
        let target = if after.fault is None && after.peek().kind == TokenType::Ident {
            after.declare().copy()
        } else {
            after.reject(Expected::Ident)
        };
        target.expect_copy(TokenType::Assign, Expected::Assign).expression().newline()
    }

    /// `INPUT Ident NEWLINE`. The keyword and the identifier are copied.
    #[verifier::opaque]
    pub open spec fn input_statement(self) -> Machine {
        self.copy().expect_copy(TokenType::Ident, Expected::Ident).newline()
    }

    /// `Ident "=" expression NEWLINE`.
    #[verifier::opaque]
    pub open spec fn assignment(self) -> Machine {
        self.copy().expect_copy(TokenType::Assign, Expected::Assign).expression().newline()
    }

    /// The head of an `IF` or `WHILE` block, from the keyword to the end of
    /// its line: `opening` replaces the keyword, the comparison follows, then
    /// `)`, and `{` replaces the keyword `then`, which is asked for as `expected`.
    #[verifier::opaque]
    pub open spec fn block_head(
        self,
        opening: Seq<char>,
        then: TokenType,
        expected: Expected,
    ) -> Machine {
        self.replace(opening).comparison().emit(")"@).expect_replace(
            then,
            expected,
            "{"@,
        ).newline()
    }

    /// The foot of an `IF` or `WHILE` block: `}` replaces the keyword `end`,
    /// which is asked for as `expected`, and the line ends.
    pub open spec fn block_foot(self, end: TokenType, expected: Expected) -> Machine {
        self.expect_replace(end, expected, "}"@).newline()
    }

    /// An `IF` or `WHILE` block: the head, the statements inside, the foot.
    ///
    /// ```text
    /// IF comparison THEN NEWLINE { statement } ENDIF NEWLINE
    /// WHILE comparison REPEAT NEWLINE { statement } ENDWHILE NEWLINE
    /// ```
    ///
    /// At `EOF` the head stops, since a comparison needs a token, and nothing
    /// follows a stopped head.
    pub open spec fn block(
        self,
        opening: Seq<char>,
        then: TokenType,
        expected_then: Expected,
        end: TokenType,
        expected_end: Expected,
    ) -> Machine
        decreases self.input.len(), 0nat,
    {
        let head = self.block_head(opening, then, expected_then);
        if self.fault is None && self.peek().kind != TokenType::EOF {
            proof {
                lemma_block_head_input(self, opening, then, expected_then);
            }
            head.statements().block_foot(end, expected_end)
        } else {
            head
        }
    }

    /// One statement, chosen by the current token.
    pub open spec fn statement(self) -> Machine
        decreases self.input.len(), 1nat,
    {
        if self.fault is Some {
            self
        } else {
            match self.peek().kind {
                TokenType::PRINT => self.print_statement(),
                TokenType::IF => self.block(
                    "if ("@,
                    TokenType::THEN,
                    Expected::Then,
                    TokenType::ENDIF,
                    Expected::EndIf,
                ),
                TokenType::WHILE => self.block(
                    "while ("@,
                    TokenType::REPEAT,
                    Expected::Repeat,
                    TokenType::ENDWHILE,
                    Expected::EndWhile,
                ),
                TokenType::LET => self.let_statement(),
                TokenType::INPUT => self.input_statement(),
                TokenType::Ident => self.assignment(),
                _ => self.reject(Expected::StatementStart),
            }
        }
    }

    /// `{ statement }`: statements as long as the current token starts one.
    /// An undeclared identifier where a statement could start is a fault.
    ///
    /// A statement uses at least one token (`lemma_statement_input`), so the
    /// test on the input's length is always met; it is there to make it plain
    /// that this definition is well-founded.
    pub open spec fn statements(self) -> Machine
        decreases self.input.len(), 2nat,
    {
        if self.fault is Some {
            self
        } else if self.at_undeclared() {
            self.fail(Fault::Undeclared { name: self.peek().text })
        } else if self.at_statement() {
            let next = self.statement();
            if next.input.len() < self.input.len() {
                next.statements()
            } else {
                next
            }
        } else {
            self
        }
    }

    /// A whole program: the fixed head, at least one statement, the fixed foot.
    /// The first token is read behind the head: the token that is current
    /// before, which at the start is the unset one, is left behind unused.
    #[verifier::opaque]
    pub open spec fn program(self) -> Machine {
        let head = self.emit("#include <stdio.h>\n"@).emit("int main(void) {\n"@).shift();
        if head.fault is None && !head.at_undeclared() && !head.at_statement() {
            head.reject(Expected::StatementStart)
        } else {
            head.statements().emit("}\n"@)
        }
    }
}

/// A stopped machine stays as it is, whatever is asked of it.
pub proof fn lemma_stopped(m: Machine)
    requires
        m.fault is Some,
    ensures
        m.primary() == m,
        m.unary() == m,
        m.term() == m,
        m.more_terms() == m,
        m.expression() == m,
        m.comparison() == m,
        m.newline() == m,
        m.print_statement() == m,
        m.let_statement() == m,
        m.input_statement() == m,
        m.assignment() == m,
        m.statement() == m,
        m.statements() == m,
        m.program() == m,
        forall|opening: Seq<char>, then: TokenType, expected: Expected| #[trigger]
            m.block_head(opening, then, expected) == m,
        forall|
            opening: Seq<char>,
            then: TokenType,
            expected_then: Expected,
            end: TokenType,
            expected_end: Expected,
        | #[trigger] m.block(opening, then, expected_then, end, expected_end) == m,
{
    reveal(Machine::primary);
    reveal(Machine::unary);
    reveal(Machine::term);
    reveal(Machine::expression);
    reveal(Machine::comparison);
    reveal(Machine::print_statement);
    reveal(Machine::let_statement);
    reveal(Machine::input_statement);
    reveal(Machine::assignment);
    reveal(Machine::block_head);
    reveal(Machine::program);
}

/// The same of every machine at once, for the steps of expressions.
pub proof fn lemma_stopped_in_expressions()
    ensures
        forall|m: Machine| m.fault is Some ==> #[trigger] m.primary() == m,
        forall|m: Machine| m.fault is Some ==> #[trigger] m.unary() == m,
        forall|m: Machine| m.fault is Some ==> #[trigger] m.term() == m,
        forall|m: Machine| m.fault is Some ==> #[trigger] m.expression() == m,
        forall|m: Machine| m.fault is Some ==> #[trigger] m.comparison() == m,
{
    assert forall|m: Machine| m.fault is Some implies #[trigger] m.primary() == m by {
        lemma_stopped(m);
    }
    assert forall|m: Machine| m.fault is Some implies #[trigger] m.unary() == m by {
        lemma_stopped(m);
    }
    assert forall|m: Machine| m.fault is Some implies #[trigger] m.term() == m by {
        lemma_stopped(m);
    }
    assert forall|m: Machine| m.fault is Some implies #[trigger] m.expression() == m by {
        lemma_stopped(m);
    }
    assert forall|m: Machine| m.fault is Some implies #[trigger] m.comparison() == m by {
        lemma_stopped(m);
    }
}

/// `primary` adds no token to the input.
pub proof fn lemma_primary_input(m: Machine)
    ensures
        m.primary().input.len() <= m.input.len(),
{
    reveal(Machine::primary);
}

/// `unary` adds no token to the input.
pub proof fn lemma_unary_input(m: Machine)
    ensures
        m.unary().input.len() <= m.input.len(),
{
    reveal(Machine::unary);
    lemma_primary_input(m);
    lemma_primary_input(m.copy());
}

/// `term` adds no token to the input.
pub proof fn lemma_term_input(m: Machine)
    ensures
        m.term().input.len() <= m.input.len(),
{
    reveal(Machine::term);
    lemma_unary_input(m);
    lemma_unary_input(m.unary().copy());
}

/// `more_terms` adds no token to the input.
pub proof fn lemma_more_terms_input(m: Machine)
    ensures
        m.more_terms().input.len() <= m.input.len(),
    decreases m.input.len(),
{
    if m.fault is None && m.peek().kind.is_additive() {
        lemma_term_input(m.copy());
        lemma_more_terms_input(m.copy().term());
    }
}

/// `expression` adds no token to the input.
pub proof fn lemma_expression_input(m: Machine)
    ensures
        m.expression().input.len() <= m.input.len(),
{
    reveal(Machine::expression);
    lemma_term_input(m);
    lemma_more_terms_input(m.term());
}

/// `comparison` adds no token to the input.
pub proof fn lemma_comparison_input(m: Machine)
    ensures
        m.comparison().input.len() <= m.input.len(),
{
    reveal(Machine::comparison);
    lemma_expression_input(m);
    lemma_expression_input(m.expression().copy());
}

/// `block_head` uses at least the keyword that it starts at.
pub proof fn lemma_block_head_input(
    m: Machine,
    opening: Seq<char>,
    then: TokenType,
    expected: Expected,
)
    requires
        m.fault is None,
        m.input.len() > 0,
        m.peek().kind != TokenType::EOF,
    ensures
        m.block_head(opening, then, expected).input.len() < m.input.len(),
{
    reveal(Machine::block_head);
    lemma_comparison_input(m.replace(opening));
}

/// `print_statement` uses at least one token where it starts at one.
pub proof fn lemma_print_statement_input(m: Machine)
    requires
        m.fault is None,
        m.peek().kind == TokenType::PRINT,
    ensures
        m.print_statement().input.len() < m.input.len(),
{
    reveal(Machine::print_statement);
    lemma_expression_input(m.replace("printf("@).emit("\"%f\", "@));
}

/// `let_statement` uses at least one token where it starts at one.
pub proof fn lemma_let_statement_input(m: Machine)
    requires
        m.fault is None,
        m.peek().kind == TokenType::LET,
    ensures
        m.let_statement().input.len() < m.input.len(),
{
    reveal(Machine::let_statement);
    let after = m.replace("float "@);
    let target = if after.peek().kind == TokenType::Ident {
        after.declare().copy()
    } else {
        after.reject(Expected::Ident)
    };
    lemma_expression_input(target.expect_copy(TokenType::Assign, Expected::Assign));
}

/// `assignment` uses at least one token where it starts at one.
pub proof fn lemma_assignment_input(m: Machine)
    requires
        m.fault is None,
        m.peek().kind == TokenType::Ident,
    ensures
        m.assignment().input.len() < m.input.len(),
{
    reveal(Machine::assignment);
    lemma_expression_input(m.copy().expect_copy(TokenType::Assign, Expected::Assign));
}

/// `block` uses at least one token where it starts at one.
pub proof fn lemma_block_input(
    m: Machine,
    opening: Seq<char>,
    then: TokenType,
    expected_then: Expected,
    end: TokenType,
    expected_end: Expected,
)
    requires
        m.fault is None,
        m.peek().kind != TokenType::EOF,
    ensures
        m.block(opening, then, expected_then, end, expected_end).input.len() < m.input.len(),
    decreases m.input.len(), 0nat,
{
    lemma_block_head_input(m, opening, then, expected_then);
    lemma_statements_input(m.block_head(opening, then, expected_then));
}

/// `statement` adds no token to the input, and uses at least one where the
/// current token starts a statement.
pub proof fn lemma_statement_input(m: Machine)
    ensures
        m.statement().input.len() <= m.input.len(),
        m.fault is None && m.at_statement() ==> m.statement().input.len() < m.input.len(),
    decreases m.input.len(), 1nat,
{
    if m.fault is None {
        match m.peek().kind {
            TokenType::PRINT => lemma_print_statement_input(m),
            TokenType::IF => lemma_block_input(
                m,
                "if ("@,
                TokenType::THEN,
                Expected::Then,
                TokenType::ENDIF,
                Expected::EndIf,
            ),
            TokenType::WHILE => lemma_block_input(
                m,
                "while ("@,
                TokenType::REPEAT,
                Expected::Repeat,
                TokenType::ENDWHILE,
                Expected::EndWhile,
            ),
            TokenType::LET => lemma_let_statement_input(m),
            TokenType::INPUT => {
                reveal(Machine::input_statement);
            },
            TokenType::Ident => lemma_assignment_input(m),
            _ => {},
        }
    }
}

/// `statements` adds no token to the input.
pub proof fn lemma_statements_input(m: Machine)
    ensures
        m.statements().input.len() <= m.input.len(),
    decreases m.input.len(), 2nat,
{
    if m.fault is None && !m.at_undeclared() && m.at_statement() {
        lemma_statement_input(m);
        lemma_statements_input(m.statement());
    }
}

/// Where the current token starts a statement, `statements` is that
/// statement and then `statements` again. A stopped machine stays as it is,
/// and so does one whose current token starts no statement.
pub proof fn lemma_statements_unfold(m: Machine)
    ensures
        m.statements() == if m.fault is Some {
            m
        } else if m.at_undeclared() {
            m.fail(Fault::Undeclared { name: m.peek().text })
        } else if m.at_statement() {
            m.statement().statements()
        } else {
            m
        },
{
    lemma_statement_input(m);
}

/// What follows the first term of an expression is, at `+` or `-`, that
/// operator, a term, and again what follows; anywhere else it is nothing.
pub proof fn lemma_more_terms_unfold(m: Machine)
    ensures
        m.more_terms() == if m.fault is None && m.peek().kind.is_additive() {
            m.copy().term().more_terms()
        } else {
            m
        },
{
}

} // verus!
