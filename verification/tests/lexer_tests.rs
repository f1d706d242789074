use basic_compiler::charclass::CharClass;
use basic_compiler::lexer::{keyword_or_ident, same_text, Lexer, Token, TokenType};

fn all_tokens(source: &str) -> Vec<(TokenType, String)> {
    let mut lexer = Lexer::new(source);
    let mut found = Vec::new();
    loop {
        let token: Token = lexer.next_token();
        found.push((token.token_type, token.value.to_string()));
        if token.token_type == TokenType::EOF {
            return found;
        }
        assert!(found.len() <= source.chars().count() + 1);
    }
}

fn kinds(source: &str) -> Vec<TokenType> {
    all_tokens(source).into_iter().map(|(kind, _)| kind).collect()
}

fn texts(source: &str) -> Vec<String> {
    all_tokens(source).into_iter().map(|(_, text)| text).collect()
}

#[test]
fn keyword_followed_by_letter_is_one_identifier() {
    assert_eq!(
        all_tokens("IFX = 3\n"),
        vec![
            (TokenType::Ident, "IFX".to_string()),
            (TokenType::Assign, "=".to_string()),
            (TokenType::Number, "3".to_string()),
            (TokenType::Newline, "\n".to_string()),
            (TokenType::EOF, "".to_string()),
        ]
    );
}

#[test]
fn every_keyword_followed_by_a_letter_is_an_identifier() {
    for keyword in [
        "LET", "PRINT", "IF", "THEN", "ENDIF", "WHILE", "REPEAT", "ENDWHILE", "INPUT",
    ] {
        let longer = format!("{}S", keyword);
        assert_eq!(
            all_tokens(&longer),
            vec![(TokenType::Ident, longer.clone()), (TokenType::EOF, "".to_string())]
        );
    }
}

#[test]
fn every_keyword_is_found() {
    assert_eq!(
        kinds("LET PRINT IF THEN ENDIF WHILE REPEAT ENDWHILE INPUT"),
        vec![
            TokenType::LET,
            TokenType::PRINT,
            TokenType::IF,
            TokenType::THEN,
            TokenType::ENDIF,
            TokenType::WHILE,
            TokenType::REPEAT,
            TokenType::ENDWHILE,
            TokenType::INPUT,
            TokenType::EOF,
        ]
    );
    assert_eq!(
        texts("LET PRINT IF THEN ENDIF WHILE REPEAT ENDWHILE INPUT"),
        vec!["LET", "PRINT", "IF", "THEN", "ENDIF", "WHILE", "REPEAT", "ENDWHILE", "INPUT", ""]
    );
}

#[test]
fn keyword_ends_at_a_character_that_is_no_letter() {
    assert_eq!(
        kinds("IF1 LET= PRINT\"a\" ENDIF\n"),
        vec![
            TokenType::IF,
            TokenType::Number,
            TokenType::LET,
            TokenType::Assign,
            TokenType::PRINT,
            TokenType::String,
            TokenType::ENDIF,
            TokenType::Newline,
            TokenType::EOF,
        ]
    );
}

#[test]
fn keywords_are_upper_case_only() {
    assert_eq!(
        kinds("let Print if"),
        vec![TokenType::Ident, TokenType::Ident, TokenType::Ident, TokenType::EOF]
    );
}

#[test]
fn part_of_a_keyword_is_an_identifier() {
    assert_eq!(
        all_tokens("END I"),
        vec![
            (TokenType::Ident, "END".to_string()),
            (TokenType::Ident, "I".to_string()),
            (TokenType::EOF, "".to_string()),
        ]
    );
}

#[test]
fn empty_source_is_eof() {
    assert_eq!(all_tokens(""), vec![(TokenType::EOF, "".to_string())]);
}

#[test]
fn eof_is_returned_again_and_again() {
    let mut lexer = Lexer::new("x");
    assert_eq!(lexer.next_token().token_type, TokenType::Ident);
    for _ in 0..3 {
        let token = lexer.next_token();
        assert_eq!(token.token_type, TokenType::EOF);
        assert_eq!(token.value, "");
    }
}

#[test]
fn blanks_are_skipped_and_newlines_are_not() {
    assert_eq!(
        all_tokens(" \t x \r\n\n  "),
        vec![
            (TokenType::Ident, "x".to_string()),
            (TokenType::Newline, "\n".to_string()),
            (TokenType::Newline, "\n".to_string()),
            (TokenType::EOF, "".to_string()),
        ]
    );
}

#[test]
fn blanks_only_is_eof() {
    assert_eq!(all_tokens("  \t "), vec![(TokenType::EOF, "".to_string())]);
}

#[test]
fn operators_of_one_character() {
    assert_eq!(
        all_tokens("+-*/=><"),
        vec![
            (TokenType::Plus, "+".to_string()),
            (TokenType::Minus, "-".to_string()),
            (TokenType::Times, "*".to_string()),
            (TokenType::Divide, "/".to_string()),
            (TokenType::Assign, "=".to_string()),
            (TokenType::Greater, ">".to_string()),
            (TokenType::Less, ">".to_string()),
            (TokenType::EOF, "".to_string()),
        ]
    );
}

#[test]
fn operators_of_two_characters_are_one_token() {
    assert_eq!(
        all_tokens("== >= <= 1"),
        vec![
            (TokenType::Equals, "==".to_string()),
            (TokenType::GreaterEqual, ">=".to_string()),
            (TokenType::LessEqual, "<=".to_string()),
            (TokenType::Number, "1".to_string()),
            (TokenType::EOF, "".to_string()),
        ]
    );
}

#[test]
fn three_equal_signs_are_equals_then_assign() {
    assert_eq!(
        kinds("==="),
        vec![TokenType::Equals, TokenType::Assign, TokenType::EOF]
    );
}

#[test]
fn blank_between_operator_and_equal_sign_keeps_them_apart() {
    assert_eq!(
        kinds("> = < ="),
        vec![
            TokenType::Greater,
            TokenType::Assign,
            TokenType::Less,
            TokenType::Assign,
            TokenType::EOF,
        ]
    );
}

#[test]
fn bare_less_has_the_text_of_greater() {
    let mut lexer = Lexer::new("a < b");
    assert_eq!(lexer.next_token().value, "a");
    let less = lexer.next_token();
    assert_eq!(less.token_type, TokenType::Less);
    assert_eq!(less.value, ">");
    assert_eq!(lexer.next_token().value, "b");
}

#[test]
fn not_equal_is_never_found() {
    assert_eq!(
        kinds("a != b"),
        vec![
            TokenType::Ident,
            TokenType::Unknown,
            TokenType::Assign,
            TokenType::Ident,
            TokenType::EOF,
        ]
    );
    assert!(!kinds("a <> b").contains(&TokenType::NotEqual));
}

#[test]
fn number_is_a_run_of_digits() {
    assert_eq!(
        all_tokens("007 12.5"),
        vec![
            (TokenType::Number, "007".to_string()),
            (TokenType::Number, "12".to_string()),
            (TokenType::Unknown, "".to_string()),
            (TokenType::Number, "5".to_string()),
            (TokenType::EOF, "".to_string()),
        ]
    );
}

#[test]
fn digits_end_a_word_and_letters_end_a_number() {
    assert_eq!(
        all_tokens("x1 2y"),
        vec![
            (TokenType::Ident, "x".to_string()),
            (TokenType::Number, "1".to_string()),
            (TokenType::Number, "2".to_string()),
            (TokenType::Ident, "y".to_string()),
            (TokenType::EOF, "".to_string()),
        ]
    );
}

#[test]
fn string_keeps_its_quotes_and_what_is_between_them() {
    assert_eq!(
        all_tokens("PRINT \"hello, world\nIF {x}\" \"\""),
        vec![
            (TokenType::PRINT, "PRINT".to_string()),
            (TokenType::String, "\"hello, world\nIF {x}\"".to_string()),
            (TokenType::String, "\"\"".to_string()),
            (TokenType::EOF, "".to_string()),
        ]
    );
}

#[test]
fn string_has_no_escape() {
    assert_eq!(
        all_tokens("\"a\\\"b\""),
        vec![
            (TokenType::String, "\"a\\\"".to_string()),
            (TokenType::Ident, "b".to_string()),
            (TokenType::Unknown, "".to_string()),
            (TokenType::EOF, "".to_string()),
        ]
    );
}

#[test]
fn unterminated_string_is_unknown_to_the_end() {
    assert_eq!(
        all_tokens("x \"abc def\n1"),
        vec![
            (TokenType::Ident, "x".to_string()),
            (TokenType::Unknown, "".to_string()),
            (TokenType::EOF, "".to_string()),
        ]
    );
    assert_eq!(
        all_tokens("\""),
        vec![(TokenType::Unknown, "".to_string()), (TokenType::EOF, "".to_string())]
    );
}

#[test]
fn unknown_character_is_one_token_and_lexing_goes_on() {
    assert_eq!(
        all_tokens("a ? b"),
        vec![
            (TokenType::Ident, "a".to_string()),
            (TokenType::Unknown, "".to_string()),
            (TokenType::Ident, "b".to_string()),
            (TokenType::EOF, "".to_string()),
        ]
    );
}

#[test]
fn letters_beyond_ascii_are_letters() {
    assert_eq!(
        all_tokens("\u{e9}t\u{e9} = 1"),
        vec![
            (TokenType::Ident, "\u{e9}t\u{e9}".to_string()),
            (TokenType::Assign, "=".to_string()),
            (TokenType::Number, "1".to_string()),
            (TokenType::EOF, "".to_string()),
        ]
    );
}

#[test]
fn characters_beyond_ascii_keep_the_slices_right() {
    assert_eq!(
        all_tokens("\"\u{20ac}\u{1f600}\" x\u{20ac}y"),
        vec![
            (TokenType::String, "\"\u{20ac}\u{1f600}\"".to_string()),
            (TokenType::Ident, "x".to_string()),
            (TokenType::Unknown, "".to_string()),
            (TokenType::Ident, "y".to_string()),
            (TokenType::EOF, "".to_string()),
        ]
    );
}

#[test]
fn blanks_beyond_ascii_are_skipped() {
    assert_eq!(
        all_tokens("a\u{a0}\u{2003}b"),
        vec![
            (TokenType::Ident, "a".to_string()),
            (TokenType::Ident, "b".to_string()),
            (TokenType::EOF, "".to_string()),
        ]
    );
}

#[test]
fn digits_beyond_ascii_are_no_digits() {
    assert_eq!(
        kinds("\u{663}"),
        vec![TokenType::Unknown, TokenType::EOF]
    );
}

#[test]
fn token_texts_and_skipped_blanks_give_the_source_back() {
    let source = "LET  abc = 12 + x\n\tPRINT \"a  b\"\nWHILE abc >= 3 REPEAT\nENDWHILE\n  ";
    let mut lexer = Lexer::new(source);
    let mut rest = source;
    let mut joined = String::new();
    loop {
        let token = lexer.next_token();
        if token.token_type == TokenType::EOF {
            break;
        }
        let blanks = rest.len() - rest.trim_start_matches([' ', '\t']).len();
        rest = &rest[blanks..];
        assert!(rest.starts_with(token.value));
        rest = &rest[token.value.len()..];
        joined.push_str(token.value);
    }
    assert_eq!(rest.trim_start_matches([' ', '\t']), "");
    let without_blanks: String = "LETabc=12+x\nPRINT\"a  b\"\nWHILEabc>=3REPEAT\nENDWHILE\n".into();
    assert_eq!(joined, without_blanks);
}

#[test]
fn text_of_a_lexer_is_its_source() {
    let lexer = Lexer::new("PRINT 1\n");
    assert_eq!(lexer.text(), "PRINT 1\n");
}

#[test]
fn with_classes_needs_one_class_for_each_character() {
    assert!(Lexer::with_classes("ab", vec![CharClass::Letter]).is_none());
    assert!(Lexer::with_classes("", vec![CharClass::Letter]).is_none());
    assert!(Lexer::with_classes("\u{e9}", vec![CharClass::Letter, CharClass::Letter]).is_none());
    assert!(Lexer::with_classes("\u{e9}", vec![CharClass::Letter]).is_some());
    assert!(Lexer::with_classes("", vec![]).is_some());
}

#[test]
fn with_classes_lexes_by_the_given_classes() {
    let classes = vec![
        CharClass::Letter,
        CharClass::Letter,
        CharClass::Blank,
        CharClass::Digit,
        CharClass::Less,
        CharClass::Equal,
        CharClass::Other,
    ];
    let mut lexer = Lexer::with_classes("IF_#__!", classes).unwrap();
    let word = lexer.next_token();
    assert_eq!((word.token_type, word.value), (TokenType::IF, "IF"));
    let number = lexer.next_token();
    assert_eq!((number.token_type, number.value), (TokenType::Number, "#"));
    let operator = lexer.next_token();
    assert_eq!((operator.token_type, operator.value), (TokenType::LessEqual, "__"));
    let unknown = lexer.next_token();
    assert_eq!((unknown.token_type, unknown.value), (TokenType::Unknown, ""));
    assert_eq!(lexer.next_token().token_type, TokenType::EOF);
}

#[test]
fn same_text_compares_characters() {
    assert!(same_text("", ""));
    assert!(same_text("LET", "LET"));
    assert!(!same_text("LET", "LEt"));
    assert!(!same_text("LET", "LE"));
    assert!(!same_text("LE", "LET"));
    assert!(same_text("\u{e9}\u{20ac}", "\u{e9}\u{20ac}"));
    assert!(!same_text("\u{e9}", "e"));
}

#[test]
fn keyword_table() {
    assert_eq!(keyword_or_ident("LET"), TokenType::LET);
    assert_eq!(keyword_or_ident("PRINT"), TokenType::PRINT);
    assert_eq!(keyword_or_ident("IF"), TokenType::IF);
    assert_eq!(keyword_or_ident("THEN"), TokenType::THEN);
    assert_eq!(keyword_or_ident("ENDIF"), TokenType::ENDIF);
    assert_eq!(keyword_or_ident("WHILE"), TokenType::WHILE);
    assert_eq!(keyword_or_ident("REPEAT"), TokenType::REPEAT);
    assert_eq!(keyword_or_ident("ENDWHILE"), TokenType::ENDWHILE);
    assert_eq!(keyword_or_ident("INPUT"), TokenType::INPUT);
    assert_eq!(keyword_or_ident("IFX"), TokenType::Ident);
    assert_eq!(keyword_or_ident("I"), TokenType::Ident);
    assert_eq!(keyword_or_ident(""), TokenType::Ident);
    assert_eq!(keyword_or_ident("let"), TokenType::Ident);
    assert_eq!(keyword_or_ident("NotEqual"), TokenType::Ident);
}
