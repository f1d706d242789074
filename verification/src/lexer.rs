use crate::charclass::{classes_of, classify_text, CharClass};
use vstd::prelude::*;

verus! {

/// The kinds of token.
#[derive(Debug, Clone, Copy, PartialEq, Eq, Structural)]
pub enum TokenType {
    Assign,
    Equals,
    NotEqual,
    Greater,
    GreaterEqual,
    Less,
    LessEqual,
    Plus,
    Minus,
    Number,
    Ident,
    String,
    Times,
    Divide,
    Newline,
    EOF,
    Unknown,
    // Keywords
    LET,
    PRINT,
    IF,
    THEN,
    ENDIF,
    WHILE,
    REPEAT,
    ENDWHILE,
    INPUT,
}

impl TokenType {
    /// Whether this kind is one of the nine keywords.
    pub open spec fn is_keyword(self) -> bool {
        match self {
            TokenType::LET
            | TokenType::PRINT
            | TokenType::IF
            | TokenType::THEN
            | TokenType::ENDIF
            | TokenType::WHILE
            | TokenType::REPEAT
            | TokenType::ENDWHILE
            | TokenType::INPUT => true,
            _ => false,
        }
    }
}

/// A token: its kind and its text, which borrows from the source.
#[derive(Debug, Clone, Copy)]
pub struct Token<'a> {
    pub token_type: TokenType,
    pub value: &'a str,
}

/// What a token is in contracts: its kind and the characters of its text.
pub struct Tok {
    pub kind: TokenType,
    pub text: Seq<char>,
}

impl Tok {
    /// The token that stands where none has been read yet: `Unknown`, without
    /// text.
    pub open spec fn unset() -> Tok {
        Tok { kind: TokenType::Unknown, text: Seq::empty() }
    }
}

impl<'a> View for Token<'a> {
    type V = Tok;

    open spec fn view(&self) -> Tok {
        Tok { kind: self.token_type, text: self.value@ }
    }
}

/// The kind of a maximal run of letters: the keyword that the run spells, or
/// `Ident` where it spells none.
pub open spec fn word_kind(word: Seq<char>) -> TokenType {
    if word == "LET"@ {
        TokenType::LET
    } else if word == "PRINT"@ {
        TokenType::PRINT
    } else if word == "IF"@ {
        TokenType::IF
    } else if word == "THEN"@ {
        TokenType::THEN
    } else if word == "ENDIF"@ {
        TokenType::ENDIF
    } else if word == "WHILE"@ {
        TokenType::WHILE
    } else if word == "REPEAT"@ {
        TokenType::REPEAT
    } else if word == "ENDWHILE"@ {
        TokenType::ENDWHILE
    } else if word == "INPUT"@ {
        TokenType::INPUT
    } else {
        TokenType::Ident
    }
}

/// Whether two strings hold the same characters.
pub fn same_text(a: &str, b: &str) -> (same: bool)
    ensures
        same == (a@ == b@),
{
    let n = a.unicode_len();
    if n != b.unicode_len() {
        return false;
    }
    let mut i: usize = 0;
    while i < n
        invariant
            n == a@.len(),
            n == b@.len(),
            i <= n,
            a@.take(i as int) == b@.take(i as int),
        decreases n - i,
    {
        if a.get_char(i) != b.get_char(i) {
            return false;
        }
        i = i + 1;
    }
    assert(a@ == a@.take(n as int));
    assert(b@ == b@.take(n as int));
    true
}

/// Looks a run of letters up in the keyword table.
pub fn keyword_or_ident(word: &str) -> (kind: TokenType)
    ensures
        kind == word_kind(word@),
{
    if same_text(word, "LET") {
        TokenType::LET
    } else if same_text(word, "PRINT") {
        TokenType::PRINT
    } else if same_text(word, "IF") {
        TokenType::IF
    } else if same_text(word, "THEN") {
        TokenType::THEN
    } else if same_text(word, "ENDIF") {
        TokenType::ENDIF
    } else if same_text(word, "WHILE") {
        TokenType::WHILE
    } else if same_text(word, "REPEAT") {
        TokenType::REPEAT
    } else if same_text(word, "ENDWHILE") {
        TokenType::ENDWHILE
    } else if same_text(word, "INPUT") {
        TokenType::INPUT
    } else {
        TokenType::Ident
    }
}

/// The end of the run of `class` that starts at `from`: the first position at
/// or after `from` whose class is another one, or the end of the text.
pub open spec fn run_end(classes: Seq<CharClass>, from: int, class: CharClass) -> int
    decreases classes.len() - from,
{
    if 0 <= from < classes.len() && classes[from] == class {
        run_end(classes, from + 1, class)
    } else {
        from
    }
}

/// The first position at or after `from` that holds a double quote, or the end
/// of the text where none follows.
pub open spec fn closing_quote(classes: Seq<CharClass>, from: int) -> int
    decreases classes.len() - from,
{
    if 0 <= from < classes.len() && classes[from] != CharClass::Quote {
        closing_quote(classes, from + 1)
    } else {
        from
    }
}

/// One step of lexing: the token found, and the part of the source it covers.
pub struct Lexeme {
    pub kind: TokenType,
    /// Where the token starts, after the blanks before it.
    pub start: int,
    /// Where the next step starts.
    pub end: int,
    pub text: Seq<char>,
}

impl Lexeme {
    pub open spec fn tok(self) -> Tok {
        Tok { kind: self.kind, text: self.text }
    }
}

/// A token that covers `src[start, end)` and has that slice as its text.
pub open spec fn slice_lexeme(src: Seq<char>, kind: TokenType, start: int, end: int) -> Lexeme {
    Lexeme { kind, start, end, text: src.subrange(start, end) }
}

/// An operator of one character, or of two where `=` follows it.
pub open spec fn operator_lexeme(
    src: Seq<char>,
    classes: Seq<CharClass>,
    start: int,
    alone: TokenType,
    with_equal: TokenType,
) -> Lexeme {
    if start + 1 < classes.len() && classes[start + 1] == CharClass::Equal {
        slice_lexeme(src, with_equal, start, start + 2)
    } else {
        slice_lexeme(src, alone, start, start + 1)
    }
}

/// The token that lexing finds when it starts at `pos` in `src`, whose
/// characters have the classes `classes`.
///
/// Blanks are skipped first. At the end of the text the token is `EOF`. A
/// double quote opens a string that runs to the next double quote, both
/// included; with no closing quote the rest of the text is an `Unknown` token.
/// A letter starts a maximal run of letters, which is a keyword if it spells
/// one and an identifier otherwise. A digit starts a maximal run of digits.
/// `=`, `>` and `<` take a directly following `=` with them. A character that
/// starts no token is an `Unknown` token of its own.
///
/// `EOF` and `Unknown` have no text. The text of a bare `<` is `>`. Every
/// other token has the slice of the source that it covers as its text.
pub open spec fn lexeme_at(src: Seq<char>, classes: Seq<CharClass>, pos: int) -> Lexeme {
    let start = run_end(classes, pos, CharClass::Blank);
    if start < 0 || start >= classes.len() {
        Lexeme { kind: TokenType::EOF, start, end: start, text: Seq::empty() }
    } else {
        match classes[start] {
            CharClass::Quote => {
                let close = closing_quote(classes, start + 1);
                if close < classes.len() {
                    slice_lexeme(src, TokenType::String, start, close + 1)
                } else {
                    Lexeme {
                        kind: TokenType::Unknown,
                        start,
                        end: classes.len() as int,
                        text: Seq::empty(),
                    }
                }
            },
            CharClass::Letter => {
                let end = run_end(classes, start + 1, CharClass::Letter);
                slice_lexeme(src, word_kind(src.subrange(start, end)), start, end)
            },
            CharClass::Digit => slice_lexeme(
                src,
                TokenType::Number,
                start,
                run_end(classes, start + 1, CharClass::Digit),
            ),
            CharClass::Equal => operator_lexeme(
                src,
                classes,
                start,
                TokenType::Assign,
                TokenType::Equals,
            ),
            CharClass::Greater => operator_lexeme(
                src,
                classes,
                start,
                TokenType::Greater,
                TokenType::GreaterEqual,
            ),
            CharClass::Less => {
                let found = operator_lexeme(
                    src,
                    classes,
                    start,
                    TokenType::Less,
                    TokenType::LessEqual,
                );
                if found.kind == TokenType::Less {
                    Lexeme { text: ">"@, ..found }
                } else {
                    found
                }
            },
            CharClass::Plus => slice_lexeme(src, TokenType::Plus, start, start + 1),
            CharClass::Minus => slice_lexeme(src, TokenType::Minus, start, start + 1),
            CharClass::Star => slice_lexeme(src, TokenType::Times, start, start + 1),
            CharClass::Slash => slice_lexeme(src, TokenType::Divide, start, start + 1),
            CharClass::Newline => slice_lexeme(src, TokenType::Newline, start, start + 1),
            _ => Lexeme { kind: TokenType::Unknown, start, end: start + 1, text: Seq::empty() },
        }
    }
}

/// `run_end` stays within the text and does not go back.
pub proof fn lemma_run_end_bounds(classes: Seq<CharClass>, from: int, class: CharClass)
    requires
        0 <= from <= classes.len(),
    ensures
        from <= run_end(classes, from, class) <= classes.len(),
    decreases classes.len() - from,
{
    if from < classes.len() && classes[from] == class {
        lemma_run_end_bounds(classes, from + 1, class);
    }
}

/// `closing_quote` stays within the text and does not go back.
pub proof fn lemma_closing_quote_bounds(classes: Seq<CharClass>, from: int)
    requires
        0 <= from <= classes.len(),
    ensures
        from <= closing_quote(classes, from) <= classes.len(),
    decreases classes.len() - from,
{
    if from < classes.len() && classes[from] != CharClass::Quote {
        lemma_closing_quote_bounds(classes, from + 1);
    }
}

/// Each step of lexing starts at or after `pos`, ends within the text, and,
/// unless it finds `EOF`, ends after `pos`.
pub proof fn lemma_lexeme_bounds(src: Seq<char>, classes: Seq<CharClass>, pos: int)
    requires
        0 <= pos <= classes.len(),
    ensures
        ({
            let found = lexeme_at(src, classes, pos);
            &&& pos <= found.start <= found.end <= classes.len()
            &&& found.kind != TokenType::EOF ==> found.start < found.end
            &&& found.kind == TokenType::EOF ==> found.start == classes.len()
        }),
{
    let start = run_end(classes, pos, CharClass::Blank);
    lemma_run_end_bounds(classes, pos, CharClass::Blank);
    if start < classes.len() {
        lemma_closing_quote_bounds(classes, start + 1);
        lemma_run_end_bounds(classes, start + 1, CharClass::Letter);
        lemma_run_end_bounds(classes, start + 1, CharClass::Digit);
    }
}

/// The tokens that lexing finds from `pos` on, up to the first `EOF`, which
/// is the last of them.
pub open spec fn tokens_from(src: Seq<char>, classes: Seq<CharClass>, pos: int) -> Seq<Tok>
    decreases classes.len() - pos,
{
    let found = lexeme_at(src, classes, pos);
    if found.kind == TokenType::EOF || pos < 0 || pos > classes.len() {
        seq![found.tok()]
    } else {
        proof {
            lemma_lexeme_bounds(src, classes, pos);
        }
        seq![found.tok()] + tokens_from(src, classes, found.end)
    }
}

/// The tokens of a whole source text.
pub open spec fn tokens(src: Seq<char>, classes: Seq<CharClass>) -> Seq<Tok> {
    tokens_from(src, classes, 0)
}

/// A lexer over one source text: the text, the class of each of its
/// characters, and a cursor that only moves forward.
pub struct Lexer<'a> {
    text: &'a str,
    classes: Vec<CharClass>,
    cursor: usize,
}

impl<'a> Lexer<'a> {
    /// The source text.
    pub closed spec fn source(&self) -> Seq<char> {
        self.text@
    }

    /// The class of each character of the source.
    pub closed spec fn classes(&self) -> Seq<CharClass> {
        self.classes@
    }

    /// The cursor: how many characters of the source lie behind the lexer.
    pub closed spec fn position(&self) -> int {
        self.cursor as int
    }

    /// What holds of every lexer: there is one class for each character, and
    /// the cursor lies within the text.
    #[verifier::type_invariant]
    pub open spec fn well_formed(&self) -> bool {
        &&& self.classes().len() == self.source().len()
        &&& 0 <= self.position() <= self.source().len()
    }

    /// A lexer at the start of `text`, with each character classified by
    /// Unicode's notions of whitespace and letter.
    pub fn new(text: &'a str) -> (lexer: Self)
        ensures
            lexer.source() == text@,
            lexer.classes() == classes_of(text@),
            lexer.position() == 0,
    {
        Lexer { text, classes: classify_text(text), cursor: 0 }
    }

    /// A lexer at the start of `text` whose characters have the given classes.
    /// Returns `None` unless there is exactly one class for each character.
    pub fn with_classes(text: &'a str, classes: Vec<CharClass>) -> (lexer: Option<Self>)
        ensures
            lexer is Some <==> classes@.len() == text@.len(),
            lexer matches Some(l) ==> l.source() == text@ && l.classes() == classes@
                && l.position() == 0,
    {
        if classes.len() == text.unicode_len() {
            Some(Lexer { text, classes, cursor: 0 })
        } else {
            None
        }
    }

    /// The source text.
    pub fn text(&self) -> (text: &'a str)
        ensures
            text@ == self.source(),
    {
        self.text
    }

    /// Scans the run of `class` that starts at `from`.
    fn scan_run(&self, from: usize, class: CharClass) -> (end: usize)
        requires
            from <= self.classes().len(),
        ensures
            end == run_end(self.classes(), from as int, class),
            from <= end <= self.classes().len(),
    {
        let n = self.classes.len();
        let mut i = from;
        while i < n && self.classes[i] == class
            invariant
                n == self.classes@.len(),
                from <= i <= n,
                run_end(self.classes@, i as int, class) == run_end(
                    self.classes@,
                    from as int,
                    class,
                ),
            decreases n - i,
        {
            i = i + 1;
        }
        i
    }

    /// Scans for the double quote that closes a string whose inside starts at `from`.
    fn scan_string(&self, from: usize) -> (close: usize)
        requires
            from <= self.classes().len(),
        ensures
            close == closing_quote(self.classes(), from as int),
            from <= close <= self.classes().len(),
    {
        let n = self.classes.len();
        let mut i = from;
        while i < n && self.classes[i] != CharClass::Quote
            invariant
                n == self.classes@.len(),
                from <= i <= n,
                closing_quote(self.classes@, i as int) == closing_quote(
                    self.classes@,
                    from as int,
                ),
            decreases n - i,
        {
            i = i + 1;
        }
        i
    }

    /// Moves the cursor to `end` and returns the token of kind `kind` whose
    /// text is the slice of the source from `start` to `end`.
    fn take_slice(&mut self, kind: TokenType, start: usize, end: usize) -> (token: Token<'a>)
        requires
            old(self).position() <= start <= end <= old(self).source().len(),
        ensures
            final(self).source() == old(self).source(),
            final(self).classes() == old(self).classes(),
            final(self).position() == end,
            token@ == slice_lexeme(old(self).source(), kind, start as int, end as int).tok(),
    {
        proof {
            use_type_invariant(&*self);
        }
        self.cursor = end;
        Token { token_type: kind, value: self.text.substring_char(start, end) }
    }

    /// Moves the cursor to `end` and returns a token of kind `kind` whose text
    /// is `text`, which need not come from the source.
    fn take_fixed(&mut self, kind: TokenType, end: usize, text: &'static str) -> (token: Token<'a>)
        requires
            old(self).position() <= end <= old(self).source().len(),
        ensures
            final(self).source() == old(self).source(),
            final(self).classes() == old(self).classes(),
            final(self).position() == end,
            token@ == (Tok { kind, text: text@ }),
    {
        proof {
            use_type_invariant(&*self);
        }
        self.cursor = end;
        Token { token_type: kind, value: text }
    }

    /// Takes the operator at `start`: `with_equal` where `=` follows it
    /// directly, `alone` otherwise.
    fn take_operator(&mut self, start: usize, alone: TokenType, with_equal: TokenType) -> (token:
        Token<'a>)
        requires
            old(self).position() <= start < old(self).source().len(),
        ensures
            final(self).source() == old(self).source(),
            final(self).classes() == old(self).classes(),
            final(self).position() == operator_lexeme(
                old(self).source(),
                old(self).classes(),
                start as int,
                alone,
                with_equal,
            ).end,
            token@ == operator_lexeme(
                old(self).source(),
                old(self).classes(),
                start as int,
                alone,
                with_equal,
            ).tok(),
    {
        proof {
            use_type_invariant(&*self);
        }
        let n = self.classes.len();
        if start + 1 < n && self.classes[start + 1] == CharClass::Equal {
            self.take_slice(with_equal, start, start + 2)
        } else {
            self.take_slice(alone, start, start + 1)
        }
    }

    /// Returns the next token and moves the cursor behind it.
    ///
    /// Never fails: text that is no token comes back as `Unknown`, and at the
    /// end of the text every call returns `EOF`. The cursor never moves back,
    /// and moves forward whenever the token is not `EOF`.
    pub fn next_token(&mut self) -> (token: Token<'a>)
        ensures
            final(self).source() == old(self).source(),
            final(self).classes() == old(self).classes(),
            token@ == lexeme_at(old(self).source(), old(self).classes(), old(self).position()).tok(),
            final(self).position() == lexeme_at(
                old(self).source(),
                old(self).classes(),
                old(self).position(),
            ).end,
            old(self).position() <= final(self).position() <= old(self).source().len(),
            token.token_type != TokenType::EOF ==> old(self).position() < final(self).position(),
    {
        proof {
            use_type_invariant(&*self);
            reveal_strlit("");
            assert(""@ =~= Seq::<char>::empty());
        }
        let n = self.classes.len();
        let start = self.scan_run(self.cursor, CharClass::Blank);
        if start >= n {
            return self.take_fixed(TokenType::EOF, start, "");
        }
        match self.classes[start] {
            CharClass::Quote => {
                let close = self.scan_string(start + 1);
                if close < n {
                    self.take_slice(TokenType::String, start, close + 1)
                } else {
                    self.take_fixed(TokenType::Unknown, n, "")
                }
            },
            CharClass::Letter => {
                let end = self.scan_run(start + 1, CharClass::Letter);
                let word = self.take_slice(TokenType::Ident, start, end);
                Token { token_type: keyword_or_ident(word.value), value: word.value }
            },
            CharClass::Digit => {
                let end = self.scan_run(start + 1, CharClass::Digit);
                self.take_slice(TokenType::Number, start, end)
            },
            CharClass::Equal => self.take_operator(start, TokenType::Assign, TokenType::Equals),
            CharClass::Greater => self.take_operator(
                start,
                TokenType::Greater,
                TokenType::GreaterEqual,
            ),
            CharClass::Less => {
                let found = self.take_operator(start, TokenType::Less, TokenType::LessEqual);
                match found.token_type {
                    TokenType::Less => Token { token_type: TokenType::Less, value: ">" },
                    _ => found,
                }
            },
            CharClass::Plus => self.take_slice(TokenType::Plus, start, start + 1),
            CharClass::Minus => self.take_slice(TokenType::Minus, start, start + 1),
            CharClass::Star => self.take_slice(TokenType::Times, start, start + 1),
            CharClass::Slash => self.take_slice(TokenType::Divide, start, start + 1),
            CharClass::Newline => self.take_slice(TokenType::Newline, start, start + 1),
            _ => self.take_fixed(TokenType::Unknown, start + 1, ""),
        }
    }
}

} // verus!
