use crate::charclass::CharClass;
use crate::lexer::{
    closing_quote, lemma_closing_quote_bounds, lemma_lexeme_bounds, lexeme_at, run_end,
    tokens_from, word_kind, Tok, TokenType,
};
use vstd::prelude::*;

verus! {

/// A run holds nothing but its class, and ends at the end of the text or
/// before a character of another class.
pub proof fn lemma_run_is_maximal(classes: Seq<CharClass>, from: int, class: CharClass)
    requires
        0 <= from <= classes.len(),
    ensures
        forall|i: int| from <= i < run_end(classes, from, class) ==> classes[i] == class,
        run_end(classes, from, class) == classes.len() || classes[run_end(classes, from, class)]
            != class,
    decreases classes.len() - from,
{
    if from < classes.len() && classes[from] == class {
        lemma_run_is_maximal(classes, from + 1, class);
    }
}

/// No double quote stands before the closing one.
pub proof fn lemma_closing_quote_is_first(classes: Seq<CharClass>, from: int)
    requires
        0 <= from <= classes.len(),
    ensures
        forall|i: int|
            from <= i < closing_quote(classes, from) ==> classes[i] != CharClass::Quote,
        closing_quote(classes, from) == classes.len() || classes[closing_quote(classes, from)]
            == CharClass::Quote,
    decreases classes.len() - from,
{
    if from < classes.len() && classes[from] != CharClass::Quote {
        lemma_closing_quote_is_first(classes, from + 1);
    }
}

/// Where each token lies in the source.
///
/// A step of lexing that starts at `pos` skips blanks and nothing else, and
/// stops at the end of the text or at a character that is no blank. The token
/// starts there and ends within the text: tokens follow one another without
/// overlap, and only blanks lie between one token's end and the next one's
/// start. Every token but `EOF` covers at least one character.
pub proof fn lemma_token_span(src: Seq<char>, classes: Seq<CharClass>, pos: int)
    requires
        classes.len() == src.len(),
        0 <= pos <= src.len(),
    ensures
        ({
            let found = lexeme_at(src, classes, pos);
            &&& pos <= found.start <= found.end <= src.len()
            &&& forall|i: int| pos <= i < found.start ==> classes[i] == CharClass::Blank
            &&& found.start < src.len() ==> classes[found.start] != CharClass::Blank
            &&& found.kind == TokenType::EOF <==> found.start == src.len()
            &&& found.kind != TokenType::EOF ==> found.start < found.end
        }),
{
    lemma_lexeme_bounds(src, classes, pos);
    lemma_run_is_maximal(classes, pos, CharClass::Blank);
}

/// What each token's text is.
///
/// `EOF` and `Unknown` have no text, and the text of a bare `<` is `>`. The
/// text of every other token is the slice of the source that the token covers.
pub proof fn lemma_token_text(src: Seq<char>, classes: Seq<CharClass>, pos: int)
    requires
        classes.len() == src.len(),
        0 <= pos <= src.len(),
    ensures
        ({
            let found = lexeme_at(src, classes, pos);
            if found.kind == TokenType::EOF || found.kind == TokenType::Unknown {
                found.text == Seq::<char>::empty()
            } else if found.kind == TokenType::Less {
                found.text == ">"@ && found.end == found.start + 1
            } else {
                found.text == src.subrange(found.start, found.end)
            }
        }),
{
}

/// The tokens found from `pos` on end with `EOF`, and no token before the
/// last one is `EOF`.
pub proof fn lemma_eof_is_last(src: Seq<char>, classes: Seq<CharClass>, pos: int)
    requires
        classes.len() == src.len(),
        0 <= pos <= src.len(),
    ensures
        ({
            let found = tokens_from(src, classes, pos);
            &&& found.len() > 0
            &&& forall|i: int|
                0 <= i < found.len() ==> (#[trigger] found[i].kind == TokenType::EOF <==> i
                    == found.len() - 1)
        }),
    decreases src.len() - pos,
{
    let first = lexeme_at(src, classes, pos);
    lemma_token_span(src, classes, pos);
    if first.kind != TokenType::EOF {
        lemma_eof_is_last(src, classes, first.end);
    }
}

/// Whether lexing from `pos` on finds only tokens whose text is the slice of
/// the source that they cover: no `Unknown` token and no bare `<`.
pub open spec fn faithful_from(src: Seq<char>, classes: Seq<CharClass>, pos: int) -> bool
    decreases classes.len() - pos,
{
    let found = lexeme_at(src, classes, pos);
    if found.kind == TokenType::EOF || pos < 0 || pos > classes.len() {
        true
    } else {
        proof {
            lemma_lexeme_bounds(src, classes, pos);
        }
        found.kind != TokenType::Unknown && found.kind != TokenType::Less && faithful_from(
            src,
            classes,
            found.end,
        )
    }
}

/// The texts of `tokens`, one behind the other.
pub open spec fn joined(tokens: Seq<Tok>) -> Seq<char>
    decreases tokens.len(),
{
    if tokens.len() == 0 {
        Seq::empty()
    } else {
        tokens[0].text + joined(tokens.drop_first())
    }
}

/// The positions of the source that the tokens found from `pos` on cover,
/// token by token and, within a token, from its start to its end.
pub open spec fn covered_from(src: Seq<char>, classes: Seq<CharClass>, pos: int) -> Seq<int>
    decreases classes.len() - pos,
{
    let found = lexeme_at(src, classes, pos);
    if found.kind == TokenType::EOF || pos < 0 || pos > classes.len() {
        Seq::empty()
    } else {
        proof {
            lemma_lexeme_bounds(src, classes, pos);
        }
        Seq::new((found.end - found.start) as nat, |k: int| found.start + k) + covered_from(
            src,
            classes,
            found.end,
        )
    }
}

/// The texts of the tokens, joined in the order in which they are found, are
/// a subsequence of the source, without overlap and with no gap but blanks.
///
/// Character by character, the joined text is the source at the covered
/// positions. These positions lie at or after `pos`, each after the one
/// before it, and every position from `pos` on that is not among them holds a
/// blank. This holds where no token is `Unknown` or a bare `<`.
pub proof fn lemma_tokens_are_subsequence(src: Seq<char>, classes: Seq<CharClass>, pos: int)
    requires
        classes.len() == src.len(),
        0 <= pos <= src.len(),
        faithful_from(src, classes, pos),
    ensures
        ({
            let text = joined(tokens_from(src, classes, pos));
            let at = covered_from(src, classes, pos);
            &&& at.len() == text.len()
            &&& forall|i: int| 0 <= i < at.len() ==> pos <= #[trigger] at[i] < src.len()
            &&& forall|i: int| 0 <= i < at.len() ==> src[#[trigger] at[i]] == text[i]
            &&& forall|i: int, j: int| 0 <= i < j < at.len() ==> at[i] < at[j]
            &&& forall|p: int|
                pos <= p < src.len() ==> #[trigger] classes[p] == CharClass::Blank || at.contains(
                    p,
                )
        }),
    decreases src.len() - pos,
{
    let found = lexeme_at(src, classes, pos);
    lemma_token_span(src, classes, pos);
    let at = covered_from(src, classes, pos);
    if found.kind == TokenType::EOF {
        assert(tokens_from(src, classes, pos).drop_first() =~= Seq::<Tok>::empty());
        assert(joined(Seq::<Tok>::empty()) =~= Seq::<char>::empty());
    } else {
        lemma_tokens_are_subsequence(src, classes, found.end);
        let here = Seq::new((found.end - found.start) as nat, |k: int| found.start + k);
        let rest_at = covered_from(src, classes, found.end);
        assert(tokens_from(src, classes, pos).drop_first() =~= tokens_from(
            src,
            classes,
            found.end,
        ));
        assert forall|p: int| pos <= p < src.len() implies #[trigger] classes[p]
            == CharClass::Blank || at.contains(p) by {
            if found.start <= p < found.end {
                assert(at[p - found.start] == p);
            } else if found.end <= p {
                if classes[p] != CharClass::Blank {
                    let i = choose|i: int| 0 <= i < rest_at.len() && rest_at[i] == p;
                    assert(at[here.len() + i] == p);
                }
            }
        }
    }
}

/// The keyword boundary rule, for tokens.
///
/// A token that starts at a letter covers the whole run of letters: it ends
/// at the end of the text or before a character that is no letter. Its kind
/// is what the whole run spells, so it is a keyword only if the run spells
/// the keyword and no letter follows.
pub proof fn lemma_word_is_maximal(src: Seq<char>, classes: Seq<CharClass>, pos: int)
    requires
        classes.len() == src.len(),
        0 <= pos <= src.len(),
    ensures
        ({
            let found = lexeme_at(src, classes, pos);
            let word = found.kind == TokenType::Ident || found.kind.is_keyword();
            &&& word <==> found.start < src.len() && classes[found.start] == CharClass::Letter
            &&& word ==> {
                &&& forall|i: int| found.start <= i < found.end ==> classes[i] == CharClass::Letter
                &&& found.end == src.len() || classes[found.end] != CharClass::Letter
                &&& found.text == src.subrange(found.start, found.end)
                &&& found.kind == word_kind(found.text)
            }
        }),
{
    let found = lexeme_at(src, classes, pos);
    lemma_token_span(src, classes, pos);
    if found.start < src.len() {
        lemma_run_is_maximal(classes, found.start + 1, CharClass::Letter);
    }
}

/// A number is a whole run of digits: a token is a `Number` exactly if it
/// starts at a digit, and then it ends at the end of the text or before a
/// character that is no digit.
pub proof fn lemma_number_is_maximal(src: Seq<char>, classes: Seq<CharClass>, pos: int)
    requires
        classes.len() == src.len(),
        0 <= pos <= src.len(),
    ensures
        ({
            let found = lexeme_at(src, classes, pos);
            let number = found.kind == TokenType::Number;
            &&& number <==> found.start < src.len() && classes[found.start] == CharClass::Digit
            &&& number ==> {
                &&& forall|i: int| found.start <= i < found.end ==> classes[i] == CharClass::Digit
                &&& found.end == src.len() || classes[found.end] != CharClass::Digit
                &&& found.text == src.subrange(found.start, found.end)
            }
        }),
{
    let found = lexeme_at(src, classes, pos);
    lemma_token_span(src, classes, pos);
    if found.start < src.len() {
        lemma_run_is_maximal(classes, found.start + 1, CharClass::Digit);
    }
}

/// A string runs from one double quote to the next: a token is a `String`
/// exactly if it starts at a double quote that another one follows, and then
/// it ends behind the first double quote that follows. A double quote that
/// none follows starts an `Unknown` token that takes the rest of the text.
pub proof fn lemma_string_is_quoted(src: Seq<char>, classes: Seq<CharClass>, pos: int)
    requires
        classes.len() == src.len(),
        0 <= pos <= src.len(),
    ensures
        ({
            let found = lexeme_at(src, classes, pos);
            let quote = found.start < src.len() && classes[found.start] == CharClass::Quote;
            let closed = exists|i: int|
                found.start < i < src.len() && #[trigger] classes[i] == CharClass::Quote;
            &&& found.kind == TokenType::String <==> quote && closed
            &&& found.kind == TokenType::String ==> {
                &&& found.start + 2 <= found.end
                &&& classes[found.end - 1] == CharClass::Quote
                &&& forall|i: int|
                    found.start < i < found.end - 1 ==> classes[i] != CharClass::Quote
                &&& found.text == src.subrange(found.start, found.end)
            }
            &&& quote && !closed ==> found.kind == TokenType::Unknown && found.end == src.len()
        }),
{
    let found = lexeme_at(src, classes, pos);
    lemma_token_span(src, classes, pos);
    if found.start < src.len() {
        lemma_closing_quote_is_first(classes, found.start + 1);
        lemma_closing_quote_bounds(classes, found.start + 1);
    }
}

/// Whether `word` is one of the nine keywords.
pub open spec fn spells_keyword(word: Seq<char>) -> bool {
    ||| word == "LET"@
    ||| word == "PRINT"@
    ||| word == "IF"@
    ||| word == "THEN"@
    ||| word == "ENDIF"@
    ||| word == "WHILE"@
    ||| word == "REPEAT"@
    ||| word == "ENDWHILE"@
    ||| word == "INPUT"@
}

/// The first letter and the length of each keyword. No two keywords of one
/// length start with the same letter.
pub proof fn lemma_keyword_shapes()
    ensures
        "LET"@.len() == 3 && "LET"@[0] == 'L',
        "PRINT"@.len() == 5 && "PRINT"@[0] == 'P',
        "IF"@.len() == 2 && "IF"@[0] == 'I' && "IF"@[1] == 'F',
        "THEN"@.len() == 4 && "THEN"@[0] == 'T',
        "ENDIF"@.len() == 5 && "ENDIF"@[0] == 'E' && "ENDIF"@[3] == 'I',
        "WHILE"@.len() == 5 && "WHILE"@[0] == 'W',
        "REPEAT"@.len() == 6 && "REPEAT"@[0] == 'R',
        "ENDWHILE"@.len() == 8 && "ENDWHILE"@[0] == 'E' && "ENDWHILE"@[3] == 'W',
        "INPUT"@.len() == 5 && "INPUT"@[0] == 'I' && "INPUT"@[1] == 'N',
{
    reveal_strlit("LET");
    reveal_strlit("PRINT");
    reveal_strlit("IF");
    reveal_strlit("THEN");
    reveal_strlit("ENDIF");
    reveal_strlit("WHILE");
    reveal_strlit("REPEAT");
    reveal_strlit("ENDWHILE");
    reveal_strlit("INPUT");
}

/// The keyword table: each keyword has its own kind, and every other word is
/// an identifier.
pub proof fn lemma_word_kinds(word: Seq<char>)
    ensures
        word_kind(word).is_keyword() <==> spells_keyword(word),
        word_kind(word) == TokenType::Ident <==> !spells_keyword(word),
        word == "LET"@ <==> word_kind(word) == TokenType::LET,
        word == "PRINT"@ <==> word_kind(word) == TokenType::PRINT,
        word == "IF"@ <==> word_kind(word) == TokenType::IF,
        word == "THEN"@ <==> word_kind(word) == TokenType::THEN,
        word == "ENDIF"@ <==> word_kind(word) == TokenType::ENDIF,
        word == "WHILE"@ <==> word_kind(word) == TokenType::WHILE,
        word == "REPEAT"@ <==> word_kind(word) == TokenType::REPEAT,
        word == "ENDWHILE"@ <==> word_kind(word) == TokenType::ENDWHILE,
        word == "INPUT"@ <==> word_kind(word) == TokenType::INPUT,
{
    lemma_keyword_shapes();
}

/// The keyword boundary rule, for words: a keyword with anything behind it
/// is an identifier, whatever follows.
pub proof fn lemma_longer_than_keyword(keyword: Seq<char>, rest: Seq<char>)
    requires
        spells_keyword(keyword),
        rest.len() > 0,
    ensures
        word_kind(keyword + rest) == TokenType::Ident,
{
    lemma_keyword_shapes();
    let word = keyword + rest;
    assert(word[0] == keyword[0] && word[1] == keyword[1]);
    if keyword.len() > 3 {
        assert(word[3] == keyword[3]);
    }
}

} // verus!
