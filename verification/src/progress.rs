use crate::error::Expected;
use crate::grammar::{lemma_block_head_input, lemma_statement_input, Machine};
use crate::lexer::TokenType;
use vstd::prelude::*;

verus! {

/// Whether `next` can come after `m`: its input is what is left of the input
/// of `m` behind some of its tokens, its output starts with the output of
/// `m`, and every identifier declared in `m` is declared in it. A machine
/// that has stopped is followed by itself alone.
pub open spec fn follows(m: Machine, next: Machine) -> bool {
    &&& next.input.len() <= m.input.len()
    &&& next.input == m.input.skip(m.input.len() - next.input.len())
    &&& m.output.is_prefix_of(next.output)
    &&& m.declared.subset_of(next.declared)
    &&& m.fault is Some ==> next == m
}

/// What follows a machine that follows `a` follows `a`.
pub proof fn lemma_follows_on(a: Machine, b: Machine, c: Machine)
    requires
        follows(a, b),
        follows(b, c),
    ensures
        follows(a, c),
{
    assert(c.input =~= a.input.skip(a.input.len() - c.input.len()));
}

/// Emitting, moving on, declaring and stopping each lead to a machine that
/// follows.
pub proof fn lemma_steps_follow(m: Machine, text: Seq<char>, expected: Expected)
    ensures
        follows(m, m),
        follows(m, m.emit(text)),
        follows(m, m.shift()),
        follows(m, m.copy()),
        follows(m, m.replace(text)),
        follows(m, m.declare()),
        follows(m, m.reject(expected)),
{
    assert(m.input =~= m.input.skip(0));
    if m.input.len() > 0 {
        assert(m.input.drop_first() =~= m.input.skip(1));
    }
}

/// `expect_copy` leads to a machine that follows.
pub proof fn lemma_expect_copy_follows(m: Machine, kind: TokenType, expected: Expected)
    ensures
        follows(m, m.expect_copy(kind, expected)),
{
    lemma_steps_follow(m, Seq::empty(), expected);
}

/// `expect_replace` leads to a machine that follows.
pub proof fn lemma_expect_replace_follows(
    m: Machine,
    kind: TokenType,
    expected: Expected,
    text: Seq<char>,
)
    ensures
        follows(m, m.expect_replace(kind, expected, text)),
{
    lemma_steps_follow(m, text, expected);
}

/// `newline` leads to a machine that follows.
pub proof fn lemma_newline_follows(m: Machine)
    ensures
        follows(m, m.newline()),
{
    lemma_steps_follow(m, ";"@, Expected::Newline);
    lemma_expect_copy_follows(m.emit(";"@), TokenType::Newline, Expected::Newline);
    lemma_follows_on(m, m.emit(";"@), m.newline());
}

/// `primary` leads to a machine that follows.
pub proof fn lemma_primary_follows(m: Machine)
    ensures
        follows(m, m.primary()),
{
    reveal(Machine::primary);
    lemma_steps_follow(m, Seq::empty(), Expected::NumberOrIdent);
    lemma_steps_follow(m.copy(), ".f"@, Expected::NumberOrIdent);
    lemma_follows_on(m, m.copy(), m.copy().emit(".f"@));
}

/// `unary` leads to a machine that follows.
pub proof fn lemma_unary_follows(m: Machine)
    ensures
        follows(m, m.unary()),
{
    reveal(Machine::unary);
    lemma_steps_follow(m, Seq::empty(), Expected::NumberOrIdent);
    lemma_primary_follows(m);
    lemma_primary_follows(m.copy());
    lemma_follows_on(m, m.copy(), m.copy().primary());
}

/// `term` leads to a machine that follows.
pub proof fn lemma_term_follows(m: Machine)
    ensures
        follows(m, m.term()),
{
    reveal(Machine::term);
    let left = m.unary();
    lemma_unary_follows(m);
    lemma_steps_follow(left, Seq::empty(), Expected::NumberOrIdent);
    lemma_unary_follows(left.copy());
    lemma_follows_on(left, left.copy(), left.copy().unary());
    lemma_follows_on(m, left, left.copy().unary());
}

/// `more_terms` leads to a machine that follows.
pub proof fn lemma_more_terms_follows(m: Machine)
    ensures
        follows(m, m.more_terms()),
    decreases m.input.len(),
{
    lemma_steps_follow(m, Seq::empty(), Expected::NumberOrIdent);
    if m.fault is None && m.peek().kind.is_additive() {
        let operand = m.copy().term();
        lemma_term_follows(m.copy());
        lemma_more_terms_follows(operand);
        lemma_follows_on(m, m.copy(), operand);
        lemma_follows_on(m, operand, operand.more_terms());
    }
}

/// `expression` leads to a machine that follows.
pub proof fn lemma_expression_follows(m: Machine)
    ensures
        follows(m, m.expression()),
{
    reveal(Machine::expression);
    lemma_term_follows(m);
    lemma_more_terms_follows(m.term());
    lemma_follows_on(m, m.term(), m.expression());
}

/// `comparison` leads to a machine that follows.
pub proof fn lemma_comparison_follows(m: Machine)
    ensures
        follows(m, m.comparison()),
{
    reveal(Machine::comparison);
    let left = m.expression();
    lemma_expression_follows(m);
    lemma_steps_follow(left, Seq::empty(), Expected::NumberOrIdent);
    lemma_expression_follows(left.copy());
    lemma_follows_on(left, left.copy(), left.copy().expression());
    lemma_follows_on(m, left, left.copy().expression());
}

/// `print_statement` leads to a machine that follows.
pub proof fn lemma_print_statement_follows(m: Machine)
    ensures
        follows(m, m.print_statement()),
{
    reveal(Machine::print_statement);
    let after = m.replace("printf("@);
    lemma_steps_follow(m, "printf("@, Expected::Newline);
    let argument = if after.fault is None && after.peek().kind == TokenType::String {
        after.copy()
    } else {
        after.emit("\"%f\", "@).expression()
    };
    lemma_steps_follow(after, "\"%f\", "@, Expected::Newline);
    lemma_expression_follows(after.emit("\"%f\", "@));
    lemma_follows_on(after, after.emit("\"%f\", "@), after.emit("\"%f\", "@).expression());
    lemma_follows_on(m, after, argument);
    lemma_steps_follow(argument, ")"@, Expected::Newline);
    lemma_follows_on(m, argument, argument.emit(")"@));
    lemma_newline_follows(argument.emit(")"@));
    lemma_follows_on(m, argument.emit(")"@), m.print_statement());
}

/// `let_statement` leads to a machine that follows.
pub proof fn lemma_let_statement_follows(m: Machine)
    ensures
        follows(m, m.let_statement()),
{
    reveal(Machine::let_statement);
    let after = m.replace("float "@);
    lemma_steps_follow(m, "float "@, Expected::Ident);
    let target = if after.fault is None && after.peek().kind == TokenType::Ident {
        after.declare().copy()
    } else {
        after.reject(Expected::Ident)
    };
    lemma_steps_follow(after, Seq::empty(), Expected::Ident);
    lemma_steps_follow(after.declare(), Seq::empty(), Expected::Ident);
    lemma_follows_on(after, after.declare(), after.declare().copy());
    lemma_follows_on(m, after, target);
    let assigned = target.expect_copy(TokenType::Assign, Expected::Assign);
    lemma_expect_copy_follows(target, TokenType::Assign, Expected::Assign);
    lemma_follows_on(m, target, assigned);
    lemma_expression_follows(assigned);
    lemma_follows_on(m, assigned, assigned.expression());
    lemma_newline_follows(assigned.expression());
    lemma_follows_on(m, assigned.expression(), m.let_statement());
}

/// `input_statement` leads to a machine that follows.
pub proof fn lemma_input_statement_follows(m: Machine)
    ensures
        follows(m, m.input_statement()),
{
    reveal(Machine::input_statement);
    lemma_steps_follow(m, Seq::empty(), Expected::Ident);
    let named = m.copy().expect_copy(TokenType::Ident, Expected::Ident);
    lemma_expect_copy_follows(m.copy(), TokenType::Ident, Expected::Ident);
    lemma_follows_on(m, m.copy(), named);
    lemma_newline_follows(named);
    lemma_follows_on(m, named, m.input_statement());
}

/// `assignment` leads to a machine that follows.
pub proof fn lemma_assignment_follows(m: Machine)
    ensures
        follows(m, m.assignment()),
{
    reveal(Machine::assignment);
    lemma_steps_follow(m, Seq::empty(), Expected::Assign);
    let assigned = m.copy().expect_copy(TokenType::Assign, Expected::Assign);
    lemma_expect_copy_follows(m.copy(), TokenType::Assign, Expected::Assign);
    lemma_follows_on(m, m.copy(), assigned);
    lemma_expression_follows(assigned);
    lemma_follows_on(m, assigned, assigned.expression());
    lemma_newline_follows(assigned.expression());
    lemma_follows_on(m, assigned.expression(), m.assignment());
}

/// `block_head` leads to a machine that follows.
pub proof fn lemma_block_head_follows(
    m: Machine,
    opening: Seq<char>,
    then: TokenType,
    expected: Expected,
)
    ensures
        follows(m, m.block_head(opening, then, expected)),
{
    reveal(Machine::block_head);
    lemma_steps_follow(m, opening, expected);
    let compared = m.replace(opening).comparison();
    lemma_comparison_follows(m.replace(opening));
    lemma_follows_on(m, m.replace(opening), compared);
    lemma_steps_follow(compared, ")"@, expected);
    lemma_follows_on(m, compared, compared.emit(")"@));
    let braced = compared.emit(")"@).expect_replace(then, expected, "{"@);
    lemma_expect_replace_follows(compared.emit(")"@), then, expected, "{"@);
    lemma_follows_on(m, compared.emit(")"@), braced);
    lemma_newline_follows(braced);
    lemma_follows_on(m, braced, braced.newline());
}

/// `block` leads to a machine that follows.
pub proof fn lemma_block_follows(
    m: Machine,
    opening: Seq<char>,
    then: TokenType,
    expected_then: Expected,
    end: TokenType,
    expected_end: Expected,
)
    ensures
        follows(m, m.block(opening, then, expected_then, end, expected_end)),
    decreases m.input.len(), 0nat,
{
    let head = m.block_head(opening, then, expected_then);
    lemma_block_head_follows(m, opening, then, expected_then);
    if m.fault is None && m.peek().kind != TokenType::EOF {
        lemma_block_head_input(m, opening, then, expected_then);
        let inside = head.statements();
        lemma_statements_follow(head);
        lemma_follows_on(m, head, inside);
        let closing = inside.expect_replace(end, expected_end, "}"@);
        lemma_expect_replace_follows(inside, end, expected_end, "}"@);
        lemma_follows_on(m, inside, closing);
        lemma_newline_follows(closing);
        lemma_follows_on(m, closing, closing.newline());
    }
}

/// `statement` leads to a machine that follows.
pub proof fn lemma_statement_follows(m: Machine)
    ensures
        follows(m, m.statement()),
    decreases m.input.len(), 1nat,
{
    lemma_steps_follow(m, Seq::empty(), Expected::StatementStart);
    if m.fault is None {
        match m.peek().kind {
            TokenType::PRINT => lemma_print_statement_follows(m),
            TokenType::IF => lemma_block_follows(
                m,
                "if ("@,
                TokenType::THEN,
                Expected::Then,
                TokenType::ENDIF,
                Expected::EndIf,
            ),
            TokenType::WHILE => lemma_block_follows(
                m,
                "while ("@,
                TokenType::REPEAT,
                Expected::Repeat,
                TokenType::ENDWHILE,
                Expected::EndWhile,
            ),
            TokenType::LET => lemma_let_statement_follows(m),
            TokenType::INPUT => lemma_input_statement_follows(m),
            TokenType::Ident => lemma_assignment_follows(m),
            _ => {},
        }
    }
}

/// `statements` leads to a machine that follows.
pub proof fn lemma_statements_follow(m: Machine)
    ensures
        follows(m, m.statements()),
    decreases m.input.len(), 2nat,
{
    lemma_steps_follow(m, Seq::empty(), Expected::StatementStart);
    if m.fault is None && !m.at_undeclared() && m.at_statement() {
        lemma_statement_follows(m);
        lemma_statement_input(m);
        lemma_statements_follow(m.statement());
        lemma_follows_on(m, m.statement(), m.statement().statements());
    }
}

/// A compilation only goes forward.
///
/// Whether it succeeds or stops, what is left of the input is the end of the
/// input it began with, the output it began with is the start of its output,
/// and every identifier that was declared is declared still: output is only
/// appended, and declarations are only added.
pub proof fn lemma_program_follows(m: Machine)
    ensures
        follows(m, m.program()),
{
    reveal(Machine::program);
    let imported = m.emit("#include <stdio.h>\n"@);
    let opened = imported.emit("int main(void) {\n"@);
    let head = opened.shift();
    lemma_steps_follow(m, "#include <stdio.h>\n"@, Expected::StatementStart);
    lemma_steps_follow(imported, "int main(void) {\n"@, Expected::StatementStart);
    lemma_follows_on(m, imported, opened);
    lemma_steps_follow(opened, Seq::empty(), Expected::StatementStart);
    lemma_follows_on(m, opened, head);
    lemma_steps_follow(head, Seq::empty(), Expected::StatementStart);
    lemma_follows_on(m, head, head.reject(Expected::StatementStart));
    lemma_statements_follow(head);
    lemma_follows_on(m, head, head.statements());
    lemma_steps_follow(head.statements(), "}\n"@, Expected::StatementStart);
    lemma_follows_on(m, head.statements(), head.statements().emit("}\n"@));
}

} // verus!
