use vstd::prelude::*;

verus! {

/// The value of the Unicode `Alphabetic` property for `c`.
pub uninterp spec fn unicode_alphabetic(c: char) -> bool;

/// The value of the Unicode `White_Space` property for `c`.
pub uninterp spec fn unicode_whitespace(c: char) -> bool;

/// `char::is_alphabetic` looks `c` up in the Unicode `Alphabetic` table; the
/// answer depends on `c` alone and is named `unicode_alphabetic(c)`.
pub assume_specification[ char::is_alphabetic ](c: char) -> (b: bool)
    ensures
        b == unicode_alphabetic(c),
;

/// `char::is_whitespace` looks `c` up in the Unicode `White_Space` table; the
/// answer depends on `c` alone and is named `unicode_whitespace(c)`.
pub assume_specification[ char::is_whitespace ](c: char) -> (b: bool)
    ensures
        b == unicode_whitespace(c),
;

/// The lexical class of one character of source text.
#[derive(Debug, Clone, Copy, PartialEq, Eq, Structural)]
pub enum CharClass {
    /// Whitespace that separates tokens (every whitespace character but the line feed).
    Blank,
    /// The double quote that opens and closes a string literal.
    Quote,
    Letter,
    /// A decimal digit, `0` to `9`.
    Digit,
    Equal,
    Greater,
    Less,
    Plus,
    Minus,
    Star,
    Slash,
    /// The line feed, which ends a statement.
    Newline,
    /// Any character that starts no token.
    Other,
}

impl CharClass {
    /// The class of `c`, given whether `c` counts as whitespace and as a letter.
    /// Earlier rows win: a whitespace character other than the line feed is
    /// `Blank` whatever else it is, and a letter is never an operator.
    pub open spec fn spec_of(c: char, whitespace: bool, alphabetic: bool) -> CharClass {
        if whitespace && c != '\n' {
            CharClass::Blank
        } else if c == '"' {
            CharClass::Quote
        } else if alphabetic {
            CharClass::Letter
        } else if '0' <= c && c <= '9' {
            CharClass::Digit
        } else if c == '=' {
            CharClass::Equal
        } else if c == '>' {
            CharClass::Greater
        } else if c == '<' {
            CharClass::Less
        } else if c == '+' {
            CharClass::Plus
        } else if c == '-' {
            CharClass::Minus
        } else if c == '*' {
            CharClass::Star
        } else if c == '/' {
            CharClass::Slash
        } else if c == '\n' {
            CharClass::Newline
        } else {
            CharClass::Other
        }
    }

    #[verifier::when_used_as_spec(spec_of)]
    pub fn of(c: char, whitespace: bool, alphabetic: bool) -> (class: CharClass)
        ensures
            class == Self::spec_of(c, whitespace, alphabetic),
    {
        if whitespace && c != '\n' {
            CharClass::Blank
        } else if c == '"' {
            CharClass::Quote
        } else if alphabetic {
            CharClass::Letter
        } else if '0' <= c && c <= '9' {
            CharClass::Digit
        } else {
            match c {
                '=' => CharClass::Equal,
                '>' => CharClass::Greater,
                '<' => CharClass::Less,
                '+' => CharClass::Plus,
                '-' => CharClass::Minus,
                '*' => CharClass::Star,
                '/' => CharClass::Slash,
                '\n' => CharClass::Newline,
                _ => CharClass::Other,
            }
        }
    }
}

/// The class of `c` under Unicode's notions of whitespace and letter.
pub open spec fn class_of(c: char) -> CharClass {
    CharClass::spec_of(c, unicode_whitespace(c), unicode_alphabetic(c))
}

/// The classes of the characters of `text`, position by position.
pub open spec fn classes_of(text: Seq<char>) -> Seq<CharClass> {
    Seq::new(text.len(), |i: int| class_of(text[i]))
}

/// Classifies one character.
pub fn classify(c: char) -> (class: CharClass)
    ensures
        class == class_of(c),
{
    CharClass::of(c, c.is_whitespace(), c.is_alphabetic())
}

/// Classifies every character of `text`.
pub fn classify_text(text: &str) -> (classes: Vec<CharClass>)
    ensures
        classes@ == classes_of(text@),
{
    let mut classes: Vec<CharClass> = Vec::new();
    for c in it: text.chars()
        invariant
            it.seq() == text@,
            classes@ == classes_of(text@).take(it.index()),
    {
        classes.push(classify(c));
    }
    classes
}

} // verus!
