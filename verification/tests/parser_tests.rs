use basic_compiler::charclass::CharClass;
use basic_compiler::error::{Expected, ParseError};
use basic_compiler::lexer::{Lexer, TokenType};
use basic_compiler::parser::Parser;

const HEAD: &str = "#include <stdio.h>\nint main(void) {\n";
const FOOT: &str = "}\n";

fn compile(source: &str) -> String {
    let mut parser = Parser::new(source);
    match parser.run() {
        Ok(()) => parser.output().to_string(),
        Err(error) => panic!("{} for {:?}", error.message(), source),
    }
}

fn body(source: &str) -> String {
    let output = compile(source);
    assert!(output.starts_with(HEAD));
    assert!(output.ends_with(FOOT));
    output[HEAD.len()..output.len() - FOOT.len()].to_string()
}

fn unexpected(source: &str) -> (Expected, TokenType, String) {
    let mut parser = Parser::new(source);
    match parser.run() {
        Err(ParseError::Unexpected { expected, found }) => {
            (expected, found.token_type, found.value.to_string())
        }
        other => panic!("{:?} for {:?}", other, source),
    }
}

fn undeclared(source: &str) -> String {
    let mut parser = Parser::new(source);
    match parser.run() {
        Err(ParseError::Undeclared { name }) => name.to_string(),
        other => panic!("{:?} for {:?}", other, source),
    }
}

fn count(text: &str, c: char) -> usize {
    text.chars().filter(|&x| x == c).count()
}

fn balanced(text: &str) -> bool {
    let mut depth: i64 = 0;
    for c in text.chars() {
        if c == '{' {
            depth += 1;
        }
        if c == '}' {
            depth -= 1;
        }
        if depth < 0 {
            return false;
        }
    }
    depth == 0
}

#[test]
fn let_and_print_compile() {
    let mut parser = Parser::new("LET x = 5\nPRINT x\n");
    assert!(parser.run().is_ok());
    assert_eq!(
        parser.output(),
        "#include <stdio.h>\nint main(void) {\nfloat x=5.f;\nprintf(\"%f\", x);\n}\n"
    );
}

#[test]
fn undeclared_identifier_is_rejected() {
    let mut parser = Parser::new("PRINT x\n");
    let error = parser.run().unwrap_err();
    match error {
        ParseError::Undeclared { name } => assert_eq!(name, "x"),
        other => panic!("{:?}", other),
    }
    assert_eq!(error.message(), "ident x used before declaration");
}

#[test]
fn empty_input_is_rejected() {
    let mut parser = Parser::new("");
    let error = parser.run().unwrap_err();
    match error {
        ParseError::Unexpected { expected, found } => {
            assert_eq!(expected, Expected::StatementStart);
            assert_eq!(found.token_type, TokenType::EOF);
            assert_eq!(found.value, "");
        }
        other => panic!("{:?}", other),
    }
    assert_eq!(error.message(), "expected keyword/expression start got EOF \"\"");
}

#[test]
fn blank_input_is_rejected() {
    assert_eq!(
        unexpected("  \t "),
        (Expected::StatementStart, TokenType::EOF, "".to_string())
    );
}

#[test]
fn program_cannot_start_with_a_newline() {
    assert_eq!(
        unexpected("\nPRINT 1\n"),
        (Expected::StatementStart, TokenType::Newline, "\n".to_string())
    );
}

#[test]
fn while_block_has_one_pair_of_braces() {
    let output = compile("LET x = 3\nWHILE x > 0 REPEAT\n LET x = x - 1\n ENDWHILE\n");
    assert_eq!(
        output,
        "#include <stdio.h>\nint main(void) {\nfloat x=3.f;\nwhile (x>0.f){;\nfloat x=x-1.f;\n};\n}\n"
    );
    assert_eq!(count(&output, '{'), 2);
    assert_eq!(count(&output, '}'), 2);
    assert!(balanced(&output));
}

#[test]
fn nested_blocks_have_one_pair_of_braces_each() {
    let source = "LET a = 1\n\
                  IF a == 1 THEN\n\
                  WHILE a >= 0 REPEAT\n\
                  IF a <= 5 THEN\n\
                  PRINT \"deep\"\n\
                  ENDIF\n\
                  LET a = a - 1\n\
                  ENDWHILE\n\
                  ENDIF\n\
                  WHILE a > 9 REPEAT\n\
                  ENDWHILE\n";
    let output = compile(source);
    assert_eq!(
        output,
        "#include <stdio.h>\nint main(void) {\n\
         float a=1.f;\n\
         if (a==1.f){;\n\
         while (a>=0.f){;\n\
         if (a<=5.f){;\n\
         printf(\"deep\");\n\
         };\n\
         float a=a-1.f;\n\
         };\n\
         };\n\
         while (a>9.f){;\n\
         };\n\
         }\n"
    );
    assert_eq!(count(&output, '{'), 1 + 4);
    assert_eq!(count(&output, '}'), 1 + 4);
    assert!(balanced(&output));
}

#[test]
fn brace_in_a_string_is_copied() {
    let output = compile("PRINT \"}\"\n");
    assert_eq!(body("PRINT \"}\"\n"), "printf(\"}\");\n");
    assert!(!balanced(&output));
}

#[test]
fn print_string() {
    assert_eq!(body("PRINT \"hello, world\"\n"), "printf(\"hello, world\");\n");
}

#[test]
fn print_expression() {
    assert_eq!(body("PRINT 1 + 2\n"), "printf(\"%f\", 1.f+2.f);\n");
}

#[test]
fn number_gets_a_float_suffix() {
    assert_eq!(body("PRINT 007\n"), "printf(\"%f\", 007.f);\n");
}

#[test]
fn let_declares_and_assigns() {
    assert_eq!(body("LET foo = 12\n"), "float foo=12.f;\n");
}

#[test]
fn let_target_is_declared_on_its_own_right_hand_side() {
    assert_eq!(body("LET x = x\n"), "float x=x;\n");
}

#[test]
fn declared_identifier_can_be_assigned_again() {
    assert_eq!(body("LET x = 1\nx = x + 2\n"), "float x=1.f;\nx=x+2.f;\n");
}

#[test]
fn input_copies_keyword_and_identifier() {
    assert_eq!(body("INPUT y\n"), "INPUTy;\n");
}

#[test]
fn input_declares_nothing() {
    assert_eq!(undeclared("INPUT y\nPRINT y\n"), "y");
}

#[test]
fn if_block() {
    assert_eq!(
        body("LET x = 1\nIF x > 0 THEN\nPRINT x\nENDIF\n"),
        "float x=1.f;\nif (x>0.f){;\nprintf(\"%f\", x);\n};\n"
    );
}

#[test]
fn empty_block() {
    assert_eq!(body("IF 1 THEN\nENDIF\n"), "if (1.f){;\n};\n");
}

#[test]
fn comparison_without_operator() {
    assert_eq!(body("WHILE 1 REPEAT\nENDWHILE\n"), "while (1.f){;\n};\n");
}

#[test]
fn every_comparison_operator() {
    assert_eq!(body("IF 1 == 2 THEN\nENDIF\n"), "if (1.f==2.f){;\n};\n");
    assert_eq!(body("IF 1 > 2 THEN\nENDIF\n"), "if (1.f>2.f){;\n};\n");
    assert_eq!(body("IF 1 >= 2 THEN\nENDIF\n"), "if (1.f>=2.f){;\n};\n");
    assert_eq!(body("IF 1 <= 2 THEN\nENDIF\n"), "if (1.f<=2.f){;\n};\n");
}

#[test]
fn bare_less_is_written_as_greater() {
    assert_eq!(body("IF 1 < 2 THEN\nENDIF\n"), "if (1.f>2.f){;\n};\n");
}

#[test]
fn comparison_takes_one_operator_only() {
    assert_eq!(
        unexpected("IF 1 == 2 == 3 THEN\nENDIF\n"),
        (Expected::Then, TokenType::Equals, "==".to_string())
    );
}

#[test]
fn comparison_is_no_expression() {
    assert_eq!(
        unexpected("PRINT 1 > 2\n"),
        (Expected::Newline, TokenType::Greater, ">".to_string())
    );
}

#[test]
fn expression_chains_any_number_of_terms() {
    assert_eq!(
        body("PRINT 1 + 2 - 3 + 4 - 5 + 6 + 7\n"),
        "printf(\"%f\", 1.f+2.f-3.f+4.f-5.f+6.f+7.f);\n"
    );
}

#[test]
fn unary_sign() {
    assert_eq!(body("PRINT -1\n"), "printf(\"%f\", -1.f);\n");
    assert_eq!(body("PRINT +1 - -2 + +3\n"), "printf(\"%f\", +1.f--2.f++3.f);\n");
}

#[test]
fn unary_sign_only_once() {
    assert_eq!(
        unexpected("PRINT - - 1\n"),
        (Expected::NumberOrIdent, TokenType::Minus, "-".to_string())
    );
}

#[test]
fn times_and_divide_belong_to_no_expression() {
    assert_eq!(
        unexpected("PRINT 2 * 3\n"),
        (Expected::Newline, TokenType::Times, "*".to_string())
    );
    assert_eq!(
        unexpected("PRINT 2 / 3\n"),
        (Expected::Newline, TokenType::Divide, "/".to_string())
    );
}

#[test]
fn expression_needs_an_operand() {
    assert_eq!(
        unexpected("PRINT\n"),
        (Expected::NumberOrIdent, TokenType::Newline, "\n".to_string())
    );
    assert_eq!(
        unexpected("LET x = 1 +\n"),
        (Expected::NumberOrIdent, TokenType::Newline, "\n".to_string())
    );
    assert_eq!(
        unexpected("LET x = \"s\"\n"),
        (Expected::NumberOrIdent, TokenType::String, "\"s\"".to_string())
    );
    assert_eq!(
        unexpected("IF"),
        (Expected::NumberOrIdent, TokenType::EOF, "".to_string())
    );
}

#[test]
fn statement_needs_its_newline() {
    assert_eq!(
        unexpected("PRINT 1"),
        (Expected::Newline, TokenType::EOF, "".to_string())
    );
    assert_eq!(
        unexpected("PRINT \"a\" \"b\"\n"),
        (Expected::Newline, TokenType::String, "\"b\"".to_string())
    );
    assert_eq!(
        unexpected("IF 1 THEN PRINT 1\nENDIF\n"),
        (Expected::Newline, TokenType::PRINT, "PRINT".to_string())
    );
    assert_eq!(
        unexpected("IF 1 THEN\nENDIF PRINT 1\n"),
        (Expected::Newline, TokenType::PRINT, "PRINT".to_string())
    );
}

#[test]
fn if_needs_then() {
    assert_eq!(
        unexpected("IF 1 REPEAT\nENDIF\n"),
        (Expected::Then, TokenType::REPEAT, "REPEAT".to_string())
    );
    assert_eq!(
        unexpected("IF 1\nENDIF\n"),
        (Expected::Then, TokenType::Newline, "\n".to_string())
    );
}

#[test]
fn if_needs_endif() {
    assert_eq!(
        unexpected("IF 1 THEN\nPRINT 1\n"),
        (Expected::EndIf, TokenType::EOF, "".to_string())
    );
    assert_eq!(
        unexpected("IF 1 THEN\nENDWHILE\n"),
        (Expected::EndIf, TokenType::ENDWHILE, "ENDWHILE".to_string())
    );
}

#[test]
fn while_needs_repeat() {
    assert_eq!(
        unexpected("WHILE 1 THEN\nENDWHILE\n"),
        (Expected::Repeat, TokenType::THEN, "THEN".to_string())
    );
}

#[test]
fn while_needs_endwhile() {
    assert_eq!(
        unexpected("WHILE 1 REPEAT\nENDIF\n"),
        (Expected::EndWhile, TokenType::ENDIF, "ENDIF".to_string())
    );
    assert_eq!(
        unexpected("WHILE 1 REPEAT\n"),
        (Expected::EndWhile, TokenType::EOF, "".to_string())
    );
}

#[test]
fn let_needs_an_identifier() {
    assert_eq!(
        unexpected("LET 1 = 2\n"),
        (Expected::Ident, TokenType::Number, "1".to_string())
    );
    assert_eq!(
        unexpected("LET IF = 2\n"),
        (Expected::Ident, TokenType::IF, "IF".to_string())
    );
}

#[test]
fn input_needs_an_identifier() {
    assert_eq!(
        unexpected("INPUT 5\n"),
        (Expected::Ident, TokenType::Number, "5".to_string())
    );
}

#[test]
fn let_needs_the_assignment_operator() {
    assert_eq!(
        unexpected("LET x 2\n"),
        (Expected::Assign, TokenType::Number, "2".to_string())
    );
    assert_eq!(
        unexpected("LET x == 2\n"),
        (Expected::Assign, TokenType::Equals, "==".to_string())
    );
}

#[test]
fn assignment_needs_the_assignment_operator() {
    assert_eq!(
        unexpected("LET x = 1\nx + 1\n"),
        (Expected::Assign, TokenType::Plus, "+".to_string())
    );
}

#[test]
fn undeclared_identifier_in_an_expression() {
    assert_eq!(undeclared("LET x = y\n"), "y");
    assert_eq!(undeclared("LET x = 1\nPRINT x + z\n"), "z");
    assert_eq!(undeclared("LET x = 1\nIF x > w THEN\nENDIF\n"), "w");
}

#[test]
fn undeclared_identifier_at_the_start_of_a_statement() {
    assert_eq!(undeclared("x = 1\n"), "x");
    assert_eq!(undeclared("LET x = 1\ny = 2\n"), "y");
    assert_eq!(undeclared("IF 1 THEN\nq = 2\nENDIF\n"), "q");
}

#[test]
fn identifiers_are_declared_by_their_text() {
    assert_eq!(undeclared("LET abc = 1\nPRINT ab\n"), "ab");
    assert_eq!(undeclared("LET abc = 1\nPRINT ABC\n"), "ABC");
    assert_eq!(body("LET abc = 1\nPRINT abc\n"), "float abc=1.f;\nprintf(\"%f\", abc);\n");
}

#[test]
fn declaration_in_a_block_holds_after_it() {
    assert_eq!(
        body("IF 1 THEN\nLET x = 1\nENDIF\nPRINT x\n"),
        "if (1.f){;\nfloat x=1.f;\n};\nprintf(\"%f\", x);\n"
    );
}

#[test]
fn unknown_token_is_rejected_where_a_token_is_needed() {
    assert_eq!(
        unexpected("PRINT ?\n"),
        (Expected::NumberOrIdent, TokenType::Unknown, "".to_string())
    );
    assert_eq!(
        unexpected("PRINT \"open\n"),
        (Expected::NumberOrIdent, TokenType::Unknown, "".to_string())
    );
    assert_eq!(
        unexpected("? PRINT 1\n"),
        (Expected::StatementStart, TokenType::Unknown, "".to_string())
    );
}

#[test]
fn program_ends_at_the_first_token_that_starts_no_statement() {
    assert_eq!(body("PRINT 1\nENDIF\nPRINT 2\n"), "printf(\"%f\", 1.f);\n");
    assert_eq!(body("PRINT 1\n?"), "printf(\"%f\", 1.f);\n");
    assert_eq!(body("PRINT 1\n\nPRINT 2\n"), "printf(\"%f\", 1.f);\n");
}

#[test]
fn blanks_do_not_matter() {
    assert_eq!(
        body("  LET\tx=1\n\tPRINT   x+1  \n"),
        "float x=1.f;\nprintf(\"%f\", x+1.f);\n"
    );
}

#[test]
fn identifiers_beyond_ascii() {
    assert_eq!(
        body("LET \u{e9}t\u{e9} = 1\nPRINT \u{e9}t\u{e9}\n"),
        "float \u{e9}t\u{e9}=1.f;\nprintf(\"%f\", \u{e9}t\u{e9});\n"
    );
}

#[test]
fn output_of_a_failed_run_is_what_was_emitted_before_the_fault() {
    let mut parser = Parser::new("PRINT 1\nPRINT x\n");
    assert!(parser.run().is_err());
    assert_eq!(
        parser.output(),
        "#include <stdio.h>\nint main(void) {\nprintf(\"%f\", 1.f);\nprintf(\"%f\", "
    );
}

#[test]
fn messages_name_what_was_expected_and_what_was_found() {
    let message = |source: &str| Parser::new(source).run().unwrap_err().message();
    assert_eq!(message("IF 1 x\n"), "expected THEN got Ident \"x\"");
    assert_eq!(message("IF 1 THEN\n"), "expected ENDIF got EOF \"\"");
    assert_eq!(message("WHILE 1 2\n"), "expected REPEAT got Number \"2\"");
    assert_eq!(message("WHILE 1 REPEAT\n"), "expected ENDWHILE got EOF \"\"");
    assert_eq!(message("LET = 1\n"), "expected Ident got Assign \"=\"");
    assert_eq!(message("LET x > 1\n"), "expected assignment operator got Greater \">\"");
    assert_eq!(message("LET x < 1\n"), "expected assignment operator got Less \">\"");
    assert_eq!(message("PRINT THEN\n"), "expected number or ident got THEN \"THEN\"");
    assert_eq!(message("PRINT 1 2\n"), "expected newline got Number \"2\"");
    assert_eq!(message("PRINT 1 \"s\"\n"), "expected newline got String \"\"s\"\"");
    assert_eq!(message("THEN\n"), "expected keyword/expression start got THEN \"THEN\"");
    assert_eq!(message("PRINT y\n"), "ident y used before declaration");
}

#[test]
fn names_of_what_is_expected() {
    assert_eq!(Expected::StatementStart.name(), "keyword/expression start");
    assert_eq!(Expected::Then.name(), "THEN");
    assert_eq!(Expected::EndIf.name(), "ENDIF");
    assert_eq!(Expected::Repeat.name(), "REPEAT");
    assert_eq!(Expected::EndWhile.name(), "ENDWHILE");
    assert_eq!(Expected::Ident.name(), "Ident");
    assert_eq!(Expected::Assign.name(), "assignment operator");
    assert_eq!(Expected::NumberOrIdent.name(), "number or ident");
    assert_eq!(Expected::Newline.name(), "newline");
}

#[test]
fn names_of_token_kinds() {
    let kinds = [
        (TokenType::Assign, "Assign"),
        (TokenType::Equals, "Equals"),
        (TokenType::NotEqual, "NotEqual"),
        (TokenType::Greater, "Greater"),
        (TokenType::GreaterEqual, "GreaterEqual"),
        (TokenType::Less, "Less"),
        (TokenType::LessEqual, "LessEqual"),
        (TokenType::Plus, "Plus"),
        (TokenType::Minus, "Minus"),
        (TokenType::Number, "Number"),
        (TokenType::Ident, "Ident"),
        (TokenType::String, "String"),
        (TokenType::Times, "Times"),
        (TokenType::Divide, "Divide"),
        (TokenType::Newline, "Newline"),
        (TokenType::EOF, "EOF"),
        (TokenType::Unknown, "Unknown"),
        (TokenType::LET, "LET"),
        (TokenType::PRINT, "PRINT"),
        (TokenType::IF, "IF"),
        (TokenType::THEN, "THEN"),
        (TokenType::ENDIF, "ENDIF"),
        (TokenType::WHILE, "WHILE"),
        (TokenType::REPEAT, "REPEAT"),
        (TokenType::ENDWHILE, "ENDWHILE"),
        (TokenType::INPUT, "INPUT"),
    ];
    for (kind, name) in kinds {
        assert_eq!(kind.name(), name);
        assert_eq!(format!("{:?}", kind), name);
    }
}

#[test]
fn parser_starts_before_the_first_token() {
    for source in ["  LET x = 1\n", "", "?", "\"open", "PRINT y\n"] {
        let parser = Parser::new(source);
        assert_eq!(parser.current_token().token_type, TokenType::Unknown);
        assert_eq!(parser.current_token().value, "");
        assert_eq!(parser.previous_token().token_type, TokenType::Unknown);
        assert_eq!(parser.previous_token().value, "");
        assert_eq!(parser.output(), "");
    }
}

#[test]
fn construction_reads_nothing_from_the_lexer() {
    let mut lexer = Lexer::new("LET x = 1\n");
    assert_eq!(lexer.next_token().token_type, TokenType::LET);
    let parser = Parser::from_lexer(lexer);
    assert_eq!(parser.current_token().token_type, TokenType::Unknown);
    assert_eq!(parser.current_token().value, "");
    assert_eq!(parser.previous_token().token_type, TokenType::Unknown);
}

#[test]
fn first_token_is_read_behind_the_head_of_the_output() {
    let mut parser = Parser::new("THEN\n");
    let error = parser.run().unwrap_err();
    assert_eq!(error.message(), "expected keyword/expression start got THEN \"THEN\"");
    assert_eq!(parser.output(), "#include <stdio.h>\nint main(void) {\n");
    assert_eq!(parser.current_token().token_type, TokenType::THEN);
    assert_eq!(parser.previous_token().token_type, TokenType::Unknown);
    assert_eq!(parser.previous_token().value, "");
}

#[test]
fn empty_input_leaves_the_head_alone_in_the_output() {
    let mut parser = Parser::new("");
    assert!(parser.run().is_err());
    assert_eq!(parser.output(), "#include <stdio.h>\nint main(void) {\n");
    assert_eq!(parser.current_token().token_type, TokenType::EOF);
    assert_eq!(parser.previous_token().token_type, TokenType::Unknown);
}

#[test]
fn parser_ends_behind_the_last_token_it_used() {
    let mut parser = Parser::new("PRINT 1\nTHEN 2");
    assert!(parser.run().is_ok());
    assert_eq!(parser.current_token().token_type, TokenType::THEN);
    assert_eq!(parser.previous_token().token_type, TokenType::Newline);
    let mut parser = Parser::new("PRINT 1\n");
    assert!(parser.run().is_ok());
    assert_eq!(parser.current_token().token_type, TokenType::EOF);
    assert_eq!(parser.previous_token().token_type, TokenType::Newline);
}

#[test]
fn parser_stops_at_the_token_it_could_not_use() {
    let mut parser = Parser::new("LET x = 1 2\n");
    assert!(parser.run().is_err());
    assert_eq!(parser.current_token().value, "2");
    assert_eq!(parser.previous_token().value, "1");
}

#[test]
fn parser_takes_tokens_from_the_cursor_of_its_lexer() {
    let mut lexer = Lexer::new("ENDIF PRINT 7\n");
    assert_eq!(lexer.next_token().token_type, TokenType::ENDIF);
    let mut parser = Parser::from_lexer(lexer);
    assert!(parser.run().is_ok());
    assert_eq!(
        parser.output(),
        "#include <stdio.h>\nint main(void) {\nprintf(\"%f\", 7.f);\n}\n"
    );
}

#[test]
fn parser_over_given_classes() {
    let classes = vec![
        CharClass::Letter,
        CharClass::Letter,
        CharClass::Letter,
        CharClass::Blank,
        CharClass::Letter,
        CharClass::Equal,
        CharClass::Digit,
        CharClass::Newline,
    ];
    let lexer = Lexer::with_classes("LET_k:7;", classes).unwrap();
    let mut parser = Parser::from_lexer(lexer);
    assert!(parser.run().is_ok());
    assert_eq!(
        parser.output(),
        "#include <stdio.h>\nint main(void) {\nfloat k:7.f;;}\n"
    );
}

#[test]
fn second_run_leaves_the_current_token_behind_and_goes_on() {
    let mut parser = Parser::new("PRINT 1\n\nPRINT 2\n");
    assert!(parser.run().is_ok());
    assert_eq!(parser.current_token().token_type, TokenType::Newline);
    assert!(parser.run().is_ok());
    assert_eq!(
        parser.output(),
        "#include <stdio.h>\nint main(void) {\nprintf(\"%f\", 1.f);\n}\n\
         #include <stdio.h>\nint main(void) {\nprintf(\"%f\", 2.f);\n}\n"
    );
    assert_eq!(parser.current_token().token_type, TokenType::EOF);
    let error = parser.run().unwrap_err();
    assert_eq!(error.message(), "expected keyword/expression start got EOF \"\"");
}
