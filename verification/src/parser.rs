use crate::charclass::classes_of;
use crate::emitter::Emitter;
use crate::error::{Expected, Fault, ParseError};
use crate::grammar::{
    lemma_block_head_input, lemma_more_terms_unfold, lemma_statement_input,
    lemma_statements_unfold, lemma_stopped_in_expressions, lemma_term_input, Machine,
};
use crate::lexer::{tokens, tokens_from, Lexer, Token, TokenType};
use vstd::hash_set::StringHashSet;
use vstd::prelude::*;

verus! {

/// The machine after a step of the parser: `machine` where the step
/// succeeded, and `machine` stopped with the step's error where it failed.
pub open spec fn outcome(machine: Machine, result: Result<(), ParseError>) -> Machine {
    match result {
        Ok(_) => machine,
        Err(error) => machine.fail(error@),
    }
}

/// A recursive-descent parser that emits the target program as it recognises
/// the source.
pub struct Parser<'a> {
    current_token: Token<'a>,
    previous_token: Token<'a>,
    lexer: Lexer<'a>,
    emitter: Emitter,
    declared_idents: StringHashSet,
}

impl<'a> Parser<'a> {
    /// The state of the compilation: the current token and those the lexer
    /// has yet to find, the token used last, the declared identifiers, and
    /// the output so far. It holds no fault: a fault is handed to the caller
    /// as an error.
    pub closed spec fn machine(&self) -> Machine {
        Machine {
            input: seq![self.current_token@] + (if self.current_token.token_type
                == TokenType::EOF {
                Seq::empty()
            } else {
                tokens_from(self.lexer.source(), self.lexer.classes(), self.lexer.position())
            }),
            previous: self.previous_token@,
            declared: self.declared_idents@,
            output: self.emitter@,
            fault: None,
        }
    }

    /// A parser before the start of `text`. Nothing is read yet: the current
    /// token is an `Unknown` token without text, and the tokens of `text` are
    /// all still to come.
    pub fn new(text: &'a str) -> (parser: Self)
        ensures
            parser.machine() == Machine::start(tokens(text@, classes_of(text@))),
    {
        Self::from_lexer(Lexer::new(text))
    }

    /// A parser that will take its tokens from `lexer`, from its cursor on.
    /// Nothing is read yet: the current token is an `Unknown` token without
    /// text.
    pub fn from_lexer(lexer: Lexer<'a>) -> (parser: Self)
        ensures
            parser.machine() == Machine::start(
                tokens_from(lexer.source(), lexer.classes(), lexer.position()),
            ),
    {
        proof {
            reveal_strlit("");
            assert(""@ =~= Seq::<char>::empty());
        }
        Parser {
            current_token: Token { token_type: TokenType::Unknown, value: "" },
            previous_token: Token { token_type: TokenType::Unknown, value: "" },
            lexer,
            emitter: Emitter::new(),
            declared_idents: StringHashSet::new(),
        }
    }

    /// The output so far.
    pub fn output(&self) -> (text: &str)
        ensures
            text@ == self.machine().output,
    {
        self.emitter.buffer()
    }

    /// The token that the next step of the grammar looks at. Before the
    /// first run it is an `Unknown` token without text.
    pub fn current_token(&self) -> (token: Token<'a>)
        ensures
            token@ == self.machine().peek(),
    {
        self.current_token
    }

    /// The token that was current before the last move, or an `Unknown`
    /// token without text where the parser has not moved yet.
    pub fn previous_token(&self) -> (token: Token<'a>)
        ensures
            token@ == self.machine().previous,
    {
        self.previous_token
    }

    /// Compiles a whole program. The first token is read behind the fixed
    /// head of the output, in place of the token that is current before.
    ///
    /// On success the output holds the complete target program. On failure the
    /// error says what was expected and what was found, and the output holds
    /// the part emitted before the fault, which is no program.
    pub fn run(&mut self) -> (result: Result<(), ParseError<'a>>)
        ensures
            outcome(final(self).machine(), result) == old(self).machine().program(),
            final(self).machine().fault is None,
    {
        self.program()
    }

    /// Moves on to the next token, unless the current one is `EOF`.
    fn next_token(&mut self)
        ensures
            final(self).machine() == old(self).machine().shift(),
    {
        proof {
            use_type_invariant(&self.lexer);
        }
        self.previous_token = self.current_token;
        if self.current_token.token_type != TokenType::EOF {
            self.current_token = self.lexer.next_token();
            assert(final(self).machine().input =~= old(self).machine().input.drop_first());
        }
    }

    /// Emits the text of the current token and moves on.
    fn emit_current_value_and_cycle(&mut self)
        ensures
            final(self).machine() == old(self).machine().copy(),
    {
        self.emitter.emit_to_buffer(self.current_token.value);
        self.next_token();
    }

    /// Emits `emit_text` in place of the current token and moves on.
    fn emit_text_and_cycle(&mut self, emit_text: &str)
        ensures
            final(self).machine() == old(self).machine().replace(emit_text@),
    {
        self.emitter.emit_to_buffer(emit_text);
        self.next_token();
    }

    /// Emits `text`.
    fn emit(&mut self, text: &str)
        ensures
            final(self).machine() == old(self).machine().emit(text@),
    {
        self.emitter.emit_to_buffer(text);
    }

    /// The error for a current token that is not what the grammar asks for.
    fn unexpected(&self, expected: Expected) -> (error: ParseError<'a>)
        ensures
            self.machine().fail(error@) == self.machine().reject(expected),
    {
        ParseError::Unexpected { expected, found: self.current_token }
    }

    /// The error for a current token that is an undeclared identifier.
    fn undeclared(&self) -> (error: ParseError<'a>)
        ensures
            error@ == (Fault::Undeclared { name: self.machine().peek().text }),
    {
        ParseError::Undeclared { name: self.current_token.value }
    }

    /// Copies the current token if it is of kind `kind`.
    fn expect_copy(&mut self, kind: TokenType, expected: Expected) -> (result: Result<
        (),
        ParseError<'a>,
    >)
        ensures
            outcome(final(self).machine(), result) == old(self).machine().expect_copy(
                kind,
                expected,
            ),
    {
        if self.current_token.token_type == kind {
            self.emit_current_value_and_cycle();
            Ok(())
        } else {
            Err(self.unexpected(expected))
        }
    }

    /// Replaces the current token by `text` if it is of kind `kind`.
    fn expect_replace(&mut self, kind: TokenType, expected: Expected, text: &str) -> (result:
        Result<(), ParseError<'a>>)
        ensures
            outcome(final(self).machine(), result) == old(self).machine().expect_replace(
                kind,
                expected,
                text@,
            ),
    {
        if self.current_token.token_type == kind {
            self.emit_text_and_cycle(text);
            Ok(())
        } else {
            Err(self.unexpected(expected))
        }
    }

    /// `program := statement { statement }`, between the fixed head and foot.
    fn program(&mut self) -> (result: Result<(), ParseError<'a>>)
        ensures
            outcome(final(self).machine(), result) == old(self).machine().program(),
    {
        proof {
            reveal(Machine::program);
        }
        self.emit("#include <stdio.h>\n");
        self.emit("int main(void) {\n");
        self.next_token();
        if !self.token_begins_statement()? {
            return Err(self.unexpected(Expected::StatementStart));
        }
        self.statements()?;
        self.emit("}\n");
        Ok(())
    }

    /// Whether the current token starts a statement. An identifier does so
    /// only if it has been declared, and is an error otherwise.
    fn token_begins_statement(&self) -> (result: Result<bool, ParseError<'a>>)
        ensures
            match result {
                Ok(begins) => !self.machine().at_undeclared() && begins
                    == self.machine().at_statement(),
                Err(error) => self.machine().at_undeclared() && error@ == (Fault::Undeclared {
                    name: self.machine().peek().text,
                }),
            },
    {
        match self.current_token.token_type {
            TokenType::PRINT => Ok(true),
            TokenType::IF => Ok(true),
            TokenType::WHILE => Ok(true),
            TokenType::LET => Ok(true),
            TokenType::INPUT => Ok(true),
            TokenType::Ident => {
                if self.declared_idents.contains(self.current_token.value) {
                    Ok(true)
                } else {
                    Err(self.undeclared())
                }
            },
            _ => Ok(false),
        }
    }

    /// `{ statement }`.
    fn statements(&mut self) -> (result: Result<(), ParseError<'a>>)
        ensures
            outcome(final(self).machine(), result) == old(self).machine().statements(),
        decreases old(self).machine().input.len(), 2nat,
    {
        let ghost start = self.machine();
        loop
            invariant
                start == old(self).machine(),
                self.machine().statements() == start.statements(),
                self.machine().input.len() <= start.input.len(),
            decreases self.machine().input.len(),
        {
            proof {
                lemma_statements_unfold(self.machine());
                lemma_statement_input(self.machine());
            }
            if !self.token_begins_statement()? {
                return Ok(());
            }
            self.statement()?;
        }
    }

    /// An `IF` or `WHILE` block, from its keyword to the end of its last line.
    fn block(
        &mut self,
        opening: &str,
        then: TokenType,
        expected_then: Expected,
        end: TokenType,
        expected_end: Expected,
    ) -> (result: Result<(), ParseError<'a>>)
        requires
            old(self).machine().peek().kind != TokenType::EOF,
        ensures
            outcome(final(self).machine(), result) == old(self).machine().block(
                opening@,
                then,
                expected_then,
                end,
                expected_end,
            ),
        decreases old(self).machine().input.len(), 0nat,
    {
        proof {
            reveal(Machine::block_head);
            lemma_block_head_input(self.machine(), opening@, then, expected_then);
        }
        self.emit_text_and_cycle(opening);
        self.comparison()?;
        self.emit(")");
        self.expect_replace(then, expected_then, "{")?;
        self.newline()?;
        self.statements()?;
        self.expect_replace(end, expected_end, "}")?;
        self.newline()
    }

    /// `PRINT (String | expression) NEWLINE`.
    fn print_statement(&mut self) -> (result: Result<(), ParseError<'a>>)
        ensures
            outcome(final(self).machine(), result) == old(self).machine().print_statement(),
    {
        proof {
            reveal(Machine::print_statement);
        }
        self.emit_text_and_cycle("printf(");
        match self.current_token.token_type {
            TokenType::String => self.emit_current_value_and_cycle(),
            _ => {
                self.emit("\"%f\", ");
                self.expression()?;
            },
        }
        self.emit(")");
        self.newline()
    }

    /// `LET Ident "=" expression NEWLINE`.
    fn let_statement(&mut self) -> (result: Result<(), ParseError<'a>>)
        ensures
            outcome(final(self).machine(), result) == old(self).machine().let_statement(),
    {
        proof {
            reveal(Machine::let_statement);
            lemma_stopped_in_expressions();
        }
        self.emit_text_and_cycle("float ");
        match self.current_token.token_type {
            TokenType::Ident => {
                self.declared_idents.insert(self.current_token.value.to_owned());
                self.emit_current_value_and_cycle();
            },
            _ => {
                return Err(self.unexpected(Expected::Ident));
            },
        }
        self.expect_copy(TokenType::Assign, Expected::Assign)?;
        self.expression()?;
        self.newline()
    }

    /// `INPUT Ident NEWLINE`.
    fn input_statement(&mut self) -> (result: Result<(), ParseError<'a>>)
        ensures
            outcome(final(self).machine(), result) == old(self).machine().input_statement(),
    {
        proof {
            reveal(Machine::input_statement);
        }
        self.emit_current_value_and_cycle();
        self.expect_copy(TokenType::Ident, Expected::Ident)?;
        self.newline()
    }

    /// `Ident "=" expression NEWLINE`.
    fn assignment(&mut self) -> (result: Result<(), ParseError<'a>>)
        ensures
            outcome(final(self).machine(), result) == old(self).machine().assignment(),
    {
        proof {
            reveal(Machine::assignment);
            lemma_stopped_in_expressions();
        }
        self.emit_current_value_and_cycle();
        self.expect_copy(TokenType::Assign, Expected::Assign)?;
        self.expression()?;
        self.newline()
    }

    /// One statement, chosen by the current token.
    fn statement(&mut self) -> (result: Result<(), ParseError<'a>>)
        ensures
            outcome(final(self).machine(), result) == old(self).machine().statement(),
        decreases old(self).machine().input.len(), 1nat,
    {
        match self.current_token.token_type {
            TokenType::PRINT => self.print_statement(),
            TokenType::IF => self.block(
                "if (",
                TokenType::THEN,
                Expected::Then,
                TokenType::ENDIF,
                Expected::EndIf,
            ),
            TokenType::WHILE => self.block(
                "while (",
                TokenType::REPEAT,
                Expected::Repeat,
                TokenType::ENDWHILE,
                Expected::EndWhile,
            ),
            TokenType::LET => self.let_statement(),
            TokenType::INPUT => self.input_statement(),
            TokenType::Ident => self.assignment(),
            _ => Err(self.unexpected(Expected::StatementStart)),
        }
    }

    /// `expression := term { ("+" | "-") term }`.
    fn expression(&mut self) -> (result: Result<(), ParseError<'a>>)
        ensures
            outcome(final(self).machine(), result) == old(self).machine().expression(),
    {
        proof {
            reveal(Machine::expression);
        }
        self.term()?;
        let ghost first = self.machine();
        while self.current_token.token_type == TokenType::Plus || self.current_token.token_type
            == TokenType::Minus
            invariant
                first.more_terms() == old(self).machine().expression(),
                self.machine().more_terms() == first.more_terms(),
            decreases self.machine().input.len(),
        {
            proof {
                lemma_more_terms_unfold(self.machine());
                lemma_term_input(self.machine().copy());
            }
            self.emit_current_value_and_cycle();
            self.term()?;
        }
        Ok(())
    }

    /// `comparison := expression [ comparison-operator expression ]`.
    fn comparison(&mut self) -> (result: Result<(), ParseError<'a>>)
        ensures
            outcome(final(self).machine(), result) == old(self).machine().comparison(),
    {
        proof {
            reveal(Machine::comparison);
        }
        self.expression()?;
        match self.current_token.token_type {
            TokenType::Equals => self.emit_current_value_and_cycle(),
            TokenType::NotEqual => self.emit_current_value_and_cycle(),
            TokenType::Greater => self.emit_current_value_and_cycle(),
            TokenType::GreaterEqual => self.emit_current_value_and_cycle(),
            TokenType::Less => self.emit_current_value_and_cycle(),
            TokenType::LessEqual => self.emit_current_value_and_cycle(),
            _ => {
                return Ok(());
            },
        }
        self.expression()
    }

    /// `term := unary [ ("+" | "-") unary ]`.
    fn term(&mut self) -> (result: Result<(), ParseError<'a>>)
        ensures
            outcome(final(self).machine(), result) == old(self).machine().term(),
    {
        proof {
            reveal(Machine::term);
        }
        self.unary()?;
        match self.current_token.token_type {
            TokenType::Plus => self.emit_current_value_and_cycle(),
            TokenType::Minus => self.emit_current_value_and_cycle(),
            _ => {
                return Ok(());
            },
        }
        self.unary()
    }

    /// `unary := [ "+" | "-" ] primary`.
    fn unary(&mut self) -> (result: Result<(), ParseError<'a>>)
        ensures
            outcome(final(self).machine(), result) == old(self).machine().unary(),
    {
        proof {
            reveal(Machine::unary);
        }
        match self.current_token.token_type {
            TokenType::Plus => self.emit_current_value_and_cycle(),
            TokenType::Minus => self.emit_current_value_and_cycle(),
            _ => (),
        }
        self.primary()
    }

    /// `primary := Number | Ident`.
    fn primary(&mut self) -> (result: Result<(), ParseError<'a>>)
        ensures
            outcome(final(self).machine(), result) == old(self).machine().primary(),
    {
        proof {
            reveal(Machine::primary);
        }
        match self.current_token.token_type {
            TokenType::Number => {
                self.emit_current_value_and_cycle();
                self.emit(".f");
                Ok(())
            },
            TokenType::Ident => {
                if !self.declared_idents.contains(self.current_token.value) {
                    return Err(self.undeclared());
                }
                self.emit_current_value_and_cycle();
                Ok(())
            },
            _ => Err(self.unexpected(Expected::NumberOrIdent)),
        }
    }

    /// The end of a statement: `;`, then the newline.
    fn newline(&mut self) -> (result: Result<(), ParseError<'a>>)
        ensures
            outcome(final(self).machine(), result) == old(self).machine().newline(),
    {
        self.emit(";");
        self.expect_copy(TokenType::Newline, Expected::Newline)
    }
}

} // verus!
