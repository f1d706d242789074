use crate::charclass::CharClass;
use crate::error::Expected;
use crate::grammar::{
    lemma_block_head_input, lemma_statement_input, lemma_term_input, Machine,
};
use crate::lexer::{lexeme_at, tokens, tokens_from, Tok, TokenType};
use crate::progress::lemma_program_follows;
use crate::spans::{lemma_eof_is_last, lemma_token_span};
use vstd::prelude::*;

verus! {

/// How often `c` occurs in `text`.
pub open spec fn count(text: Seq<char>, c: char) -> int
    decreases text.len(),
{
    if text.len() == 0 {
        0
    } else {
        count(text.drop_last(), c) + if text.last() == c {
            1int
        } else {
            0int
        }
    }
}

/// How many braces `text` leaves open: those it opens less those it closes.
pub open spec fn depth(text: Seq<char>) -> int {
    count(text, '{') - count(text, '}')
}

/// The lowest depth that `text` reaches on the way from its start to its end.
pub open spec fn floor(text: Seq<char>) -> int
    decreases text.len(),
{
    if text.len() == 0 {
        0
    } else if depth(text) < floor(text.drop_last()) {
        depth(text)
    } else {
        floor(text.drop_last())
    }
}

/// Braces are balanced in `text`: it closes as many as it opens, and at no
/// point has it closed more than it has opened.
pub open spec fn balanced(text: Seq<char>) -> bool {
    &&& depth(text) == 0
    &&& forall|k: int| 0 <= k <= text.len() ==> depth(#[trigger] text.take(k)) >= 0
}

/// Whether `text` holds no brace.
pub open spec fn brace_free(text: Seq<char>) -> bool {
    count(text, '{') == 0 && count(text, '}') == 0
}

/// Whether no token of `input` holds a brace in its text.
pub open spec fn clean(input: Seq<Tok>) -> bool {
    forall|k: int| 0 <= k < input.len() ==> brace_free(#[trigger] input[k].text)
}

/// How many tokens of `input` open a block: the `IF` and `WHILE` tokens.
pub open spec fn block_starts(input: Seq<Tok>) -> int
    decreases input.len(),
{
    if input.len() == 0 {
        0
    } else {
        block_starts(input.drop_first()) + if input[0].kind == TokenType::IF || input[0].kind
            == TokenType::WHILE {
            1int
        } else {
            0int
        }
    }
}

/// How many tokens of `input` close a block: the `ENDIF` and `ENDWHILE` tokens.
pub open spec fn block_ends(input: Seq<Tok>) -> int
    decreases input.len(),
{
    if input.len() == 0 {
        0
    } else {
        block_ends(input.drop_first()) + if input[0].kind == TokenType::ENDIF || input[0].kind
            == TokenType::ENDWHILE {
            1int
        } else {
            0int
        }
    }
}

impl TokenType {
    /// One of the four keywords that open or close a block.
    pub open spec fn is_block_keyword(self) -> bool {
        self == TokenType::IF || self == TokenType::WHILE || self == TokenType::ENDIF || self
            == TokenType::ENDWHILE
    }
}

/// The `{` that `m` has emitted and those it still owes: one for each `IF` or
/// `WHILE` in its input.
pub open spec fn opened(m: Machine) -> int {
    count(m.output, '{') + block_starts(m.input)
}

/// The `}` that `m` has emitted and those it still owes: one for each `ENDIF`
/// or `ENDWHILE` in its input.
pub open spec fn closed(m: Machine) -> int {
    count(m.output, '}') + block_ends(m.input)
}

/// Whether the step from `m` to `next` is neutral to braces: where `next`
/// has not stopped, the step neither opened nor closed a block, left the
/// depth of the output as it was, and took the output no lower than it had
/// been. The input stays clean.
pub open spec fn neutral(m: Machine, next: Machine) -> bool {
    &&& clean(next.input)
    &&& next.fault is None ==> {
        &&& m.fault is None
        &&& opened(next) == opened(m)
        &&& closed(next) == closed(m)
        &&& depth(next.output) == depth(m.output)
        &&& floor(next.output) == floor(m.output)
    }
}

/// Occurrences add up over a concatenation.
pub proof fn lemma_count_append(a: Seq<char>, b: Seq<char>, c: char)
    ensures
        count(a + b, c) == count(a, c) + count(b, c),
    decreases b.len(),
{
    if b.len() > 0 {
        lemma_count_append(a, b.drop_last(), c);
        assert((a + b).drop_last() =~= a + b.drop_last());
    }
}

/// The floor is at most 0 and at most the depth at the end.
pub proof fn lemma_floor_bounds(text: Seq<char>)
    ensures
        floor(text) <= 0,
        floor(text) <= depth(text),
    decreases text.len(),
{
    if text.len() > 0 {
        lemma_floor_bounds(text.drop_last());
    }
}

/// The floor is at most the depth of each prefix.
pub proof fn lemma_floor_prefix(text: Seq<char>, k: int)
    requires
        0 <= k <= text.len(),
    ensures
        floor(text) <= depth(text.take(k)),
    decreases text.len(),
{
    if k == text.len() {
        assert(text.take(k) =~= text);
    } else {
        lemma_floor_prefix(text.drop_last(), k);
        assert(text.drop_last().take(k) =~= text.take(k));
    }
}

/// The floor of a concatenation: the lower of the floor of its first part
/// and the floor of its second part, counted from the depth of the first.
pub proof fn lemma_floor_append(a: Seq<char>, b: Seq<char>)
    ensures
        floor(a + b) == if depth(a) + floor(b) < floor(a) {
            depth(a) + floor(b)
        } else {
            floor(a)
        },
    decreases b.len(),
{
    if b.len() > 0 {
        lemma_floor_append(a, b.drop_last());
        assert((a + b).drop_last() =~= a + b.drop_last());
        lemma_count_append(a, b, '{');
        lemma_count_append(a, b, '}');
    }
}

/// A text without `}` never goes below its start.
pub proof fn lemma_floor_without_closing(text: Seq<char>)
    requires
        count(text, '}') == 0,
    ensures
        floor(text) == 0,
        count(text, '{') >= 0,
    decreases text.len(),
{
    if text.len() > 0 {
        lemma_count_nonnegative(text.drop_last(), '}');
        lemma_floor_without_closing(text.drop_last());
    }
}

/// No character occurs fewer than zero times.
pub proof fn lemma_count_nonnegative(text: Seq<char>, c: char)
    ensures
        count(text, c) >= 0,
    decreases text.len(),
{
    if text.len() > 0 {
        lemma_count_nonnegative(text.drop_last(), c);
    }
}

/// A text whose floor is 0 and whose depth is 0 is balanced.
pub proof fn lemma_balanced(text: Seq<char>)
    requires
        depth(text) == 0,
        floor(text) == 0,
    ensures
        balanced(text),
{
    assert forall|k: int| 0 <= k <= text.len() implies depth(#[trigger] text.take(k)) >= 0 by {
        lemma_floor_prefix(text, k);
    }
}

/// The braces in the fixed pieces of the output: the opening of `main`
/// and `{` open one, `}` and the closing of `main` close one, and no other
/// piece holds a brace.
pub proof fn lemma_fixed_text_braces()
    ensures
        brace_free("printf("@),
        brace_free("\"%f\", "@),
        brace_free(")"@),
        brace_free(";"@),
        brace_free(".f"@),
        brace_free("float "@),
        brace_free("if ("@),
        brace_free("while ("@),
        brace_free("#include <stdio.h>\n"@),
        count("{"@, '{') == 1 && count("{"@, '}') == 0,
        count("}"@, '{') == 0 && count("}"@, '}') == 1,
        count("int main(void) {\n"@, '{') == 1 && count("int main(void) {\n"@, '}') == 0,
        count("}\n"@, '{') == 0 && count("}\n"@, '}') == 1,
        floor("}"@) == -1,
        floor("}\n"@) == -1,
{
    reveal_with_fuel(floor, 3);
    reveal_strlit("printf(");
    reveal_strlit("\"%f\", ");
    reveal_strlit(")");
    reveal_strlit(";");
    reveal_strlit(".f");
    reveal_strlit("float ");
    reveal_strlit("if (");
    reveal_strlit("while (");
    reveal_strlit("#include <stdio.h>\n");
    reveal_strlit("{");
    reveal_strlit("}");
    reveal_strlit("int main(void) {\n");
    reveal_strlit("}\n");
    lemma_no_brace("printf("@);
    lemma_no_brace("\"%f\", "@);
    lemma_no_brace(")"@);
    lemma_no_brace("float "@);
    lemma_no_brace("if ("@);
    lemma_no_brace("while ("@);
    lemma_no_brace("#include <stdio.h>\n"@);
    reveal_with_fuel(count, 3);
    let main = "int main(void) {\n"@;
    assert(main.drop_last().drop_last() =~= main.take(15));
    lemma_no_brace(main.take(15));
}

/// A text in which no position holds a brace is free of braces.
pub proof fn lemma_no_brace(text: Seq<char>)
    requires
        forall|i: int| 0 <= i < text.len() ==> text[i] != '{' && text[i] != '}',
    ensures
        brace_free(text),
    decreases text.len(),
{
    if text.len() > 0 {
        lemma_no_brace(text.drop_last());
    }
}

/// Emitting a text without braces is neutral.
pub proof fn lemma_emit_neutral(m: Machine, text: Seq<char>)
    requires
        clean(m.input),
        brace_free(text),
    ensures
        neutral(m, m.emit(text)),
{
    lemma_count_append(m.output, text, '{');
    lemma_count_append(m.output, text, '}');
    lemma_floor_append(m.output, text);
    lemma_floor_without_closing(text);
}

/// What is left of a clean input behind its first token is clean.
pub proof fn lemma_drop_first_clean(input: Seq<Tok>)
    requires
        clean(input),
        input.len() > 0,
    ensures
        clean(input.drop_first()),
{
    assert forall|k: int| 0 <= k < input.drop_first().len() implies brace_free(
        #[trigger] input.drop_first()[k].text,
    ) by {
        assert(input.drop_first()[k] == input[k + 1]);
    }
}

/// Moving past a token that neither opens nor closes a block is neutral.
pub proof fn lemma_shift_neutral(m: Machine)
    requires
        clean(m.input),
        !m.peek().kind.is_block_keyword(),
    ensures
        neutral(m, m.shift()),
{
    if m.input.len() > 0 {
        lemma_drop_first_clean(m.input);
    }
}

/// Copying a token that neither opens nor closes a block is neutral.
pub proof fn lemma_copy_neutral(m: Machine)
    requires
        clean(m.input),
        !m.peek().kind.is_block_keyword(),
    ensures
        neutral(m, m.copy()),
{
    lemma_emit_neutral(m, m.peek().text);
    lemma_shift_neutral(m.emit(m.peek().text));
}

/// Replacing a token that neither opens nor closes a block by a text without
/// braces is neutral.
pub proof fn lemma_replace_neutral(m: Machine, text: Seq<char>)
    requires
        clean(m.input),
        brace_free(text),
        !m.peek().kind.is_block_keyword(),
    ensures
        neutral(m, m.replace(text)),
{
    lemma_emit_neutral(m, text);
    lemma_shift_neutral(m.emit(text));
}

/// `expect_copy` is neutral for a kind that neither opens nor closes a block.
pub proof fn lemma_expect_copy_neutral(m: Machine, kind: TokenType, expected: Expected)
    requires
        clean(m.input),
        !kind.is_block_keyword(),
    ensures
        neutral(m, m.expect_copy(kind, expected)),
{
    if m.fault is None && m.peek().kind == kind {
        lemma_copy_neutral(m);
    }
}

/// `primary` is neutral.
pub proof fn lemma_primary_neutral(m: Machine)
    requires
        clean(m.input),
    ensures
        neutral(m, m.primary()),
{
    reveal(Machine::primary);
    lemma_fixed_text_braces();
    if m.fault is None && (m.peek().kind == TokenType::Number || m.peek().kind
        == TokenType::Ident) {
        lemma_copy_neutral(m);
        lemma_emit_neutral(m.copy(), ".f"@);
    }
}

/// `unary` is neutral.
pub proof fn lemma_unary_neutral(m: Machine)
    requires
        clean(m.input),
    ensures
        neutral(m, m.unary()),
{
    reveal(Machine::unary);
    if m.fault is None && m.peek().kind.is_additive() {
        lemma_copy_neutral(m);
        lemma_primary_neutral(m.copy());
    } else {
        lemma_primary_neutral(m);
    }
}

/// `term` is neutral.
pub proof fn lemma_term_neutral(m: Machine)
    requires
        clean(m.input),
    ensures
        neutral(m, m.term()),
{
    reveal(Machine::term);
    lemma_unary_neutral(m);
    let left = m.unary();
    if left.fault is None && left.peek().kind.is_additive() {
        lemma_copy_neutral(left);
        lemma_unary_neutral(left.copy());
    }
}

/// `more_terms` is neutral.
pub proof fn lemma_more_terms_neutral(m: Machine)
    requires
        clean(m.input),
    ensures
        neutral(m, m.more_terms()),
    decreases m.input.len(),
{
    if m.fault is None && m.peek().kind.is_additive() {
        lemma_copy_neutral(m);
        lemma_term_neutral(m.copy());
        lemma_term_input(m.copy());
        lemma_more_terms_neutral(m.copy().term());
    }
}

/// `expression` is neutral.
pub proof fn lemma_expression_neutral(m: Machine)
    requires
        clean(m.input),
    ensures
        neutral(m, m.expression()),
{
    reveal(Machine::expression);
    lemma_term_neutral(m);
    lemma_more_terms_neutral(m.term());
}

/// `comparison` is neutral.
pub proof fn lemma_comparison_neutral(m: Machine)
    requires
        clean(m.input),
    ensures
        neutral(m, m.comparison()),
{
    reveal(Machine::comparison);
    lemma_expression_neutral(m);
    let left = m.expression();
    if left.fault is None && left.peek().kind.is_comparison() {
        lemma_copy_neutral(left);
        lemma_expression_neutral(left.copy());
    }
}

/// `newline` is neutral.
pub proof fn lemma_newline_neutral(m: Machine)
    requires
        clean(m.input),
    ensures
        neutral(m, m.newline()),
{
    lemma_fixed_text_braces();
    lemma_emit_neutral(m, ";"@);
    lemma_expect_copy_neutral(m.emit(";"@), TokenType::Newline, Expected::Newline);
}

/// `print_statement` is neutral where it starts at `PRINT`.
pub proof fn lemma_print_statement_neutral(m: Machine)
    requires
        clean(m.input),
        m.peek().kind == TokenType::PRINT,
    ensures
        neutral(m, m.print_statement()),
{
    reveal(Machine::print_statement);
    lemma_fixed_text_braces();
    lemma_replace_neutral(m, "printf("@);
    let after = m.replace("printf("@);
    let argument = if after.fault is None && after.peek().kind == TokenType::String {
        after.copy()
    } else {
        after.emit("\"%f\", "@).expression()
    };
    if after.fault is None && after.peek().kind == TokenType::String {
        lemma_copy_neutral(after);
    } else {
        lemma_emit_neutral(after, "\"%f\", "@);
        lemma_expression_neutral(after.emit("\"%f\", "@));
    }
    lemma_emit_neutral(argument, ")"@);
    lemma_newline_neutral(argument.emit(")"@));
}

/// `let_statement` is neutral where it starts at `LET`.
pub proof fn lemma_let_statement_neutral(m: Machine)
    requires
        clean(m.input),
        m.peek().kind == TokenType::LET,
    ensures
        neutral(m, m.let_statement()),
{
    reveal(Machine::let_statement);
    lemma_fixed_text_braces();
    lemma_replace_neutral(m, "float "@);
    let after = m.replace("float "@);
    let target = if after.fault is None && after.peek().kind == TokenType::Ident {
        after.declare().copy()
    } else {
        after.reject(Expected::Ident)
    };
    if after.fault is None && after.peek().kind == TokenType::Ident {
        lemma_copy_neutral(after.declare());
    }
    lemma_expect_copy_neutral(target, TokenType::Assign, Expected::Assign);
    let assigned = target.expect_copy(TokenType::Assign, Expected::Assign);
    lemma_expression_neutral(assigned);
    lemma_newline_neutral(assigned.expression());
}

/// `input_statement` is neutral where it starts at `INPUT`.
pub proof fn lemma_input_statement_neutral(m: Machine)
    requires
        clean(m.input),
        m.peek().kind == TokenType::INPUT,
    ensures
        neutral(m, m.input_statement()),
{
    reveal(Machine::input_statement);
    lemma_copy_neutral(m);
    lemma_expect_copy_neutral(m.copy(), TokenType::Ident, Expected::Ident);
    lemma_newline_neutral(m.copy().expect_copy(TokenType::Ident, Expected::Ident));
}

/// `assignment` is neutral where it starts at an identifier.
pub proof fn lemma_assignment_neutral(m: Machine)
    requires
        clean(m.input),
        m.peek().kind == TokenType::Ident,
    ensures
        neutral(m, m.assignment()),
{
    reveal(Machine::assignment);
    lemma_copy_neutral(m);
    lemma_expect_copy_neutral(m.copy(), TokenType::Assign, Expected::Assign);
    let assigned = m.copy().expect_copy(TokenType::Assign, Expected::Assign);
    lemma_expression_neutral(assigned);
    lemma_newline_neutral(assigned.expression());
}

/// The head of a block opens one brace: the `{` that it emits stands for
/// the `IF` or `WHILE` that it uses, and the output is one deeper behind it.
pub proof fn lemma_block_head_opens(
    m: Machine,
    opening: Seq<char>,
    then: TokenType,
    expected: Expected,
)
    requires
        clean(m.input),
        m.peek().kind == TokenType::IF || m.peek().kind == TokenType::WHILE,
        brace_free(opening),
        !then.is_block_keyword(),
    ensures
        ({
            let head = m.block_head(opening, then, expected);
            &&& clean(head.input)
            &&& head.fault is None ==> {
                &&& m.fault is None
                &&& opened(head) == opened(m)
                &&& closed(head) == closed(m)
                &&& depth(head.output) == depth(m.output) + 1
                &&& floor(head.output) == floor(m.output)
            }
        }),
{
    reveal(Machine::block_head);
    lemma_fixed_text_braces();
    lemma_emit_neutral(m, opening);
    let inside = m.emit(opening).shift();
    if m.input.len() > 0 {
        lemma_drop_first_clean(m.input);
    }
    lemma_comparison_neutral(inside);
    let compared = inside.comparison();
    lemma_emit_neutral(compared, ")"@);
    let ready = compared.emit(")"@);
    let braced = ready.expect_replace(then, expected, "{"@);
    if ready.fault is None && ready.peek().kind == then {
        let brace = ready.emit("{"@);
        lemma_count_append(ready.output, "{"@, '{');
        lemma_count_append(ready.output, "{"@, '}');
        lemma_floor_append(ready.output, "{"@);
        lemma_floor_without_closing("{"@);
        lemma_floor_bounds(ready.output);
        if ready.input.len() > 0 {
            lemma_drop_first_clean(ready.input);
        }
    }
    lemma_newline_neutral(braced);
}

/// The foot of a block closes one brace: the `}` that it emits stands for
/// the `ENDIF` or `ENDWHILE` that it uses. Inside a block the output does
/// not go lower by that.
pub proof fn lemma_block_foot_closes(m: Machine, end: TokenType, expected: Expected)
    requires
        clean(m.input),
        end == TokenType::ENDIF || end == TokenType::ENDWHILE,
        floor(m.output) < depth(m.output),
    ensures
        ({
            let foot = m.block_foot(end, expected);
            &&& clean(foot.input)
            &&& foot.fault is None ==> {
                &&& m.fault is None
                &&& opened(foot) == opened(m)
                &&& closed(foot) == closed(m)
                &&& depth(foot.output) == depth(m.output) - 1
                &&& floor(foot.output) == floor(m.output)
            }
        }),
{
    lemma_fixed_text_braces();
    let closing = m.expect_replace(end, expected, "}"@);
    if m.fault is None && m.peek().kind == end {
        lemma_count_append(m.output, "}"@, '{');
        lemma_count_append(m.output, "}"@, '}');
        lemma_floor_append(m.output, "}"@);
        if m.input.len() > 0 {
            lemma_drop_first_clean(m.input);
        }
    }
    lemma_newline_neutral(closing);
}

/// A whole block is neutral: it closes the brace that it opens.
pub proof fn lemma_block_neutral(
    m: Machine,
    opening: Seq<char>,
    then: TokenType,
    expected_then: Expected,
    end: TokenType,
    expected_end: Expected,
)
    requires
        clean(m.input),
        m.peek().kind == TokenType::IF || m.peek().kind == TokenType::WHILE,
        brace_free(opening),
        !then.is_block_keyword(),
        end == TokenType::ENDIF || end == TokenType::ENDWHILE,
    ensures
        neutral(m, m.block(opening, then, expected_then, end, expected_end)),
    decreases m.input.len(), 0nat,
{
    lemma_block_head_opens(m, opening, then, expected_then);
    let head = m.block_head(opening, then, expected_then);
    if m.fault is None {
        lemma_block_head_input(m, opening, then, expected_then);
        lemma_statements_neutral(head);
        let inside = head.statements();
        if inside.fault is None {
            lemma_block_foot_closes(inside, end, expected_end);
        }
    }
}

/// `statement` is neutral.
pub proof fn lemma_statement_neutral(m: Machine)
    requires
        clean(m.input),
    ensures
        neutral(m, m.statement()),
    decreases m.input.len(), 1nat,
{
    lemma_fixed_text_braces();
    if m.fault is None {
        match m.peek().kind {
            TokenType::PRINT => lemma_print_statement_neutral(m),
            TokenType::IF => lemma_block_neutral(
                m,
                "if ("@,
                TokenType::THEN,
                Expected::Then,
                TokenType::ENDIF,
                Expected::EndIf,
            ),
            TokenType::WHILE => lemma_block_neutral(
                m,
                "while ("@,
                TokenType::REPEAT,
                Expected::Repeat,
                TokenType::ENDWHILE,
                Expected::EndWhile,
            ),
            TokenType::LET => lemma_let_statement_neutral(m),
            TokenType::INPUT => lemma_input_statement_neutral(m),
            TokenType::Ident => lemma_assignment_neutral(m),
            _ => {},
        }
    }
}

/// `statements` is neutral.
pub proof fn lemma_statements_neutral(m: Machine)
    requires
        clean(m.input),
    ensures
        neutral(m, m.statements()),
    decreases m.input.len(), 2nat,
{
    if m.fault is None && !m.at_undeclared() && m.at_statement() {
        lemma_statement_neutral(m);
        lemma_statement_input(m);
        lemma_statements_neutral(m.statement());
    }
}

/// In a compilation that succeeds the braces are balanced, with one pair
/// for `main` and one pair for each block.
///
/// Of a program whose tokens hold no brace in their own text: the output
/// closes as many braces as it opens and never closes one that is not open.
/// It holds one `{` for `main` and one for each `IF` or `WHILE` that the
/// compilation used, which are those of the input less those left in it; and
/// one `}` for `main` and one for each `ENDIF` or `ENDWHILE` used.
pub proof fn lemma_program_braces(input: Seq<Tok>)
    requires
        clean(input),
        Machine::start(input).program().fault is None,
    ensures
        ({
            let done = Machine::start(input).program();
            &&& balanced(done.output)
            &&& count(done.output, '{') == 1 + block_starts(input) - block_starts(done.input)
            &&& count(done.output, '}') == 1 + block_ends(input) - block_ends(done.input)
            &&& block_starts(input) - block_starts(done.input) == block_ends(input) - block_ends(
                done.input,
            )
        }),
{
    reveal(Machine::program);
    lemma_fixed_text_braces();
    let m = Machine::start(input);
    assert(m.input.drop_first() =~= input);
    assert(clean(m.input)) by {
        assert forall|k: int| 0 <= k < m.input.len() implies brace_free(
            #[trigger] m.input[k].text,
        ) by {
            if k > 0 {
                assert(m.input[k] == input[k - 1]);
            }
        }
    }
    let imported = m.emit("#include <stdio.h>\n"@);
    lemma_emit_neutral(m, "#include <stdio.h>\n"@);
    let opened = imported.emit("int main(void) {\n"@);
    lemma_count_append(imported.output, "int main(void) {\n"@, '{');
    lemma_count_append(imported.output, "int main(void) {\n"@, '}');
    lemma_floor_append(imported.output, "int main(void) {\n"@);
    lemma_floor_without_closing("int main(void) {\n"@);
    let head = opened.shift();
    lemma_shift_neutral(opened);
    lemma_statements_neutral(head);
    let body = head.statements();
    lemma_count_append(body.output, "}\n"@, '{');
    lemma_count_append(body.output, "}\n"@, '}');
    lemma_floor_append(body.output, "}\n"@);
    lemma_balanced(body.emit("}\n"@).output);
}

/// The tokens of a source that holds no brace hold none in their text.
pub proof fn lemma_tokens_clean(src: Seq<char>, classes: Seq<CharClass>, pos: int)
    requires
        classes.len() == src.len(),
        0 <= pos <= src.len(),
        forall|i: int| 0 <= i < src.len() ==> src[i] != '{' && src[i] != '}',
    ensures
        clean(tokens_from(src, classes, pos)),
    decreases src.len() - pos,
{
    let found = lexeme_at(src, classes, pos);
    lemma_token_span(src, classes, pos);
    reveal_strlit(">");
    lemma_no_brace(">"@);
    lemma_no_brace(src.subrange(found.start, found.end));
    if found.kind != TokenType::EOF {
        lemma_tokens_clean(src, classes, found.end);
    }
}

/// Of a source that holds no brace and compiles: the braces of the target
/// program are balanced, one pair for `main` and one pair for each block
/// that the compilation used. Where it has used the whole source, so that
/// the current token is `EOF`, that is one pair for each `IF` or `WHILE` of
/// the source; where it has ended before, the blocks behind its end have no
/// braces in the output.
pub proof fn lemma_compiled_braces(src: Seq<char>, classes: Seq<CharClass>)
    requires
        classes.len() == src.len(),
        forall|i: int| 0 <= i < src.len() ==> src[i] != '{' && src[i] != '}',
        Machine::start(tokens(src, classes)).program().fault is None,
    ensures
        ({
            let input = tokens(src, classes);
            let done = Machine::start(input).program();
            &&& balanced(done.output)
            &&& count(done.output, '{') == 1 + block_starts(input) - block_starts(done.input)
            &&& count(done.output, '}') == count(done.output, '{')
            &&& done.peek().kind == TokenType::EOF ==> count(done.output, '{') == 1
                + block_starts(input)
        }),
{
    let input = tokens(src, classes);
    let m = Machine::start(input);
    let done = m.program();
    lemma_tokens_clean(src, classes, 0);
    lemma_program_braces(input);
    if done.peek().kind == TokenType::EOF && done.input.len() > 0 {
        lemma_program_follows(m);
        lemma_eof_is_last(src, classes, 0);
        let used = m.input.len() - done.input.len();
        assert(done.input[0] == m.input[used]);
        assert(m.input[used] == input[used - 1]);
        assert(used == input.len());
        assert(done.input.drop_first() =~= Seq::<Tok>::empty());
        assert(block_starts(done.input.drop_first()) == 0);
    }
}

} // verus!
