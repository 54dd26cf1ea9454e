//! Lexical analysis: from source bytes to a token sequence.

use vstd::prelude::*;
use vstd::string::StringSliceAdditionalSpecFns;
use crate::ascii::{
    AMPERSAND, APOSTROPHE, AT, BANG, COLON, COMMA, DOT, EQUALS, GREATER, LEFT_BRACE,
    LEFT_BRACKET, LEFT_PAREN, LESS, MINUS, PERCENT, PIPE, PLUS, QUOTE, RIGHT_BRACE,
    RIGHT_BRACKET, RIGHT_PAREN, SEMICOLON, SLASH, STAR,
};
use crate::bytes::{
    byte_is_digit, byte_is_space, byte_is_word_start, bytes_eq, copy_range, is_digit, is_space,
    is_word_byte, is_word_start, lemma_run_end_bounds, run_end, scan_run, ByteClass,
};
use crate::number::{
    all_digits, digits_value, lemma_significant_len, parse_digits, significant_len,
    trim_trailing_zeros,
};
use crate::token::{Decimal, Delimiter, Keyword, Operator, Token, TokenView};

verus! {

/// The token that a word stands for: a keyword, a boolean, or else an identifier.
pub open spec fn word_token(word: Seq<u8>) -> TokenView {
    if word == "import".spec_bytes() {
        TokenView::Keyword(Keyword::Import)
    } else if word == "var".spec_bytes() || word == "let".spec_bytes() {
        TokenView::Keyword(Keyword::Var)
    } else if word == "if".spec_bytes() {
        TokenView::Keyword(Keyword::If)
    } else if word == "else".spec_bytes() {
        TokenView::Keyword(Keyword::Else)
    } else if word == "while".spec_bytes() {
        TokenView::Keyword(Keyword::While)
    } else if word == "true".spec_bytes() {
        TokenView::Boolean(true)
    } else if word == "false".spec_bytes() {
        TokenView::Boolean(false)
    } else {
        TokenView::Identifier(word)
    }
}

/// The value of an integer literal; a literal too large for the type counts as zero.
pub open spec fn integer_value(digits: Seq<u8>) -> i64 {
    if digits_value(digits) <= i64::MAX {
        digits_value(digits) as i64
    } else {
        0
    }
}

/// The value of a literal with a decimal point, given the digits on either side of it.
/// Zeros at the end of the fraction carry no value; a literal whose digits do not fit
/// the mantissa counts as zero.
pub open spec fn decimal_value(whole: Seq<u8>, fraction: Seq<u8>) -> Decimal {
    let kept = fraction.take(significant_len(fraction));
    let value = digits_value(whole + kept);
    if value <= u64::MAX {
        Decimal { mantissa: value as u64, scale: kept.len() as usize }
    } else {
        Decimal { mantissa: 0, scale: 0 }
    }
}

/// The operator that two adjacent bytes spell, if they spell one.
pub open spec fn pair_operator(first: u8, second: u8) -> Option<Operator> {
    if first == EQUALS && second == EQUALS {
        Some(Operator::Equal)
    } else if first == BANG && second == EQUALS {
        Some(Operator::NotEqual)
    } else if first == LESS && second == EQUALS {
        Some(Operator::LessEqual)
    } else if first == GREATER && second == EQUALS {
        Some(Operator::GreaterEqual)
    } else if first == AMPERSAND && second == AMPERSAND {
        Some(Operator::And)
    } else if first == PIPE && second == PIPE {
        Some(Operator::Or)
    } else {
        None
    }
}

/// The token that a single byte stands for when nothing longer starts at it.
/// A byte outside the recognised set is kept as it is, in an `Unknown` token.
pub open spec fn single_token(c: u8) -> TokenView {
    if c == PLUS {
        TokenView::Operator(Operator::Plus)
    } else if c == MINUS {
        TokenView::Operator(Operator::Minus)
    } else if c == STAR {
        TokenView::Operator(Operator::Star)
    } else if c == SLASH {
        TokenView::Operator(Operator::Slash)
    } else if c == PERCENT {
        TokenView::Operator(Operator::Percent)
    } else if c == LESS {
        TokenView::Operator(Operator::Less)
    } else if c == GREATER {
        TokenView::Operator(Operator::Greater)
    } else if c == BANG {
        TokenView::Operator(Operator::Bang)
    } else if c == EQUALS {
        TokenView::Operator(Operator::Assign)
    } else if c == LEFT_PAREN {
        TokenView::Delimiter(Delimiter::LeftParen)
    } else if c == RIGHT_PAREN {
        TokenView::Delimiter(Delimiter::RightParen)
    } else if c == LEFT_BRACE {
        TokenView::Delimiter(Delimiter::LeftBrace)
    } else if c == RIGHT_BRACE {
        TokenView::Delimiter(Delimiter::RightBrace)
    } else if c == LEFT_BRACKET {
        TokenView::Delimiter(Delimiter::LeftBracket)
    } else if c == RIGHT_BRACKET {
        TokenView::Delimiter(Delimiter::RightBracket)
    } else if c == COMMA {
        TokenView::Delimiter(Delimiter::Comma)
    } else if c == DOT {
        TokenView::Delimiter(Delimiter::Dot)
    } else if c == SEMICOLON {
        TokenView::Delimiter(Delimiter::Semicolon)
    } else if c == COLON {
        TokenView::Delimiter(Delimiter::Colon)
    } else {
        TokenView::Unknown(c)
    }
}

/// One step of the lexer: the token found at a position, if the text there
/// makes one, and the position behind it.
pub ghost struct Scan {
    pub token: Option<TokenView>,
    pub next: int,
}

/// What the lexer does at position `pos` of `s`.
pub open spec fn scan(s: Seq<u8>, pos: int) -> Scan
    recommends
        0 <= pos < s.len(),
{
    let c = s[pos];
    if is_space(c) {
        Scan { token: None, next: pos + 1 }
    } else if c == SLASH && pos + 1 < s.len() && s[pos + 1] == SLASH {
        Scan { token: None, next: run_end(s, pos + 2, ByteClass::WithinLine) }
    } else if c == QUOTE || c == APOSTROPHE {
        let close = run_end(s, pos + 1, ByteClass::Until(c));
        Scan {
            token: Some(TokenView::StringLiteral(s.subrange(pos + 1, close))),
            next: if close < s.len() {
                close + 1
            } else {
                close
            },
        }
    } else if is_digit(c) {
        let end = run_end(s, pos, ByteClass::Digit);
        if end < s.len() && s[end] == DOT {
            let fraction_end = run_end(s, end + 1, ByteClass::Digit);
            Scan {
                token: Some(
                    TokenView::Float(
                        decimal_value(s.subrange(pos, end), s.subrange(end + 1, fraction_end)),
                    ),
                ),
                next: fraction_end,
            }
        } else {
            Scan { token: Some(TokenView::Integer(integer_value(s.subrange(pos, end)))), next: end }
        }
    } else if is_word_start(c) {
        let end = run_end(s, pos, ByteClass::Word);
        Scan { token: Some(word_token(s.subrange(pos, end))), next: end }
    } else if c == AT {
        let end = run_end(s, pos + 1, ByteClass::Word);
        Scan { token: Some(TokenView::Tag(s.subrange(pos + 1, end))), next: end }
    } else if pos + 1 < s.len() && pair_operator(c, s[pos + 1]) is Some {
        Scan { token: Some(TokenView::Operator(pair_operator(c, s[pos + 1])->0)), next: pos + 2 }
    } else {
        Scan { token: Some(single_token(c)), next: pos + 1 }
    }
}

/// Every step of the lexer moves forward and stays within the input.
pub proof fn lemma_scan_advances(s: Seq<u8>, pos: int)
    requires
        0 <= pos < s.len(),
    ensures
        pos < scan(s, pos).next <= s.len(),
{
    let c = s[pos];
    if pos + 1 < s.len() {
        lemma_run_end_bounds(s, pos + 2, ByteClass::WithinLine);
    }
    lemma_run_end_bounds(s, pos + 1, ByteClass::Until(c));
    lemma_run_end_bounds(s, pos + 1, ByteClass::Word);
    lemma_run_end_bounds(s, pos, ByteClass::Word);
    lemma_run_end_bounds(s, pos, ByteClass::Digit);
    let end = run_end(s, pos, ByteClass::Digit);
    if end < s.len() {
        lemma_run_end_bounds(s, end + 1, ByteClass::Digit);
    }
}

/// The tokens of `s` from position `pos` on, closed by the end-of-input marker.
pub open spec fn lex_from(s: Seq<u8>, pos: int) -> Seq<TokenView>
    decreases s.len() - pos,
{
    if 0 <= pos < s.len() {
        proof {
            lemma_scan_advances(s, pos);
        }
        let step = scan(s, pos);
        match step.token {
            Some(t) => seq![t] + lex_from(s, step.next),
            None => lex_from(s, step.next),
        }
    } else {
        seq![TokenView::EndOfInput]
    }
}

/// The token sequence of a source text.
pub open spec fn lex(s: Seq<u8>) -> Seq<TokenView> {
    lex_from(s, 0)
}

/// Whether a token sequence is closed by the end-of-input marker and holds no other.
pub open spec fn ends_in_single_marker(ts: Seq<TokenView>) -> bool {
    &&& ts.len() > 0
    &&& ts.last() == TokenView::EndOfInput
    &&& forall|i: int| 0 <= i < ts.len() - 1 ==> #[trigger] ts[i] != TokenView::EndOfInput
}

/// The lexer is total, and what it yields from any position is a finite sequence
/// that ends in exactly one end-of-input marker.
pub proof fn lemma_lex_ends_in_single_marker(s: Seq<u8>, pos: int)
    ensures
        ends_in_single_marker(lex_from(s, pos)),
    decreases s.len() - pos,
{
    if 0 <= pos < s.len() {
        lemma_scan_advances(s, pos);
        let step = scan(s, pos);
        lemma_lex_ends_in_single_marker(s, step.next);
        let rest = lex_from(s, step.next);
        match step.token {
            Some(t) => {
                assert(t != TokenView::EndOfInput);
                let all = seq![t] + rest;
                assert(all.last() == rest.last());
                assert forall|i: int| 0 <= i < all.len() - 1 implies #[trigger] all[i]
                    != TokenView::EndOfInput by {
                    if i > 0 {
                        assert(all[i] == rest[i - 1]);
                    }
                }
            },
            None => {},
        }
    }
}

/// Whether a name is a word: a letter or an underscore, and then letters,
/// digits and underscores. A word holds no dot.
pub open spec fn is_word(name: Seq<u8>) -> bool {
    &&& name.len() > 0
    &&& is_word_start(name[0])
    &&& forall|i: int| 0 <= i < name.len() ==> is_word_byte(#[trigger] name[i])
}

/// Whether every identifier of a token sequence is a word.
pub open spec fn identifiers_are_words(ts: Seq<TokenView>) -> bool {
    forall|i: int|
        0 <= i < ts.len() ==> (#[trigger] ts[i] matches TokenView::Identifier(name) ==> is_word(
            name,
        ))
}

/// Every identifier that the lexer yields is a word.
pub proof fn lemma_lexed_identifiers_are_words(s: Seq<u8>, pos: int)
    ensures
        identifiers_are_words(lex_from(s, pos)),
    decreases s.len() - pos,
{
    if 0 <= pos < s.len() {
        lemma_scan_advances(s, pos);
        let step = scan(s, pos);
        lemma_lexed_identifiers_are_words(s, step.next);
        let rest = lex_from(s, step.next);
        match step.token {
            Some(t) => {
                let all = seq![t] + rest;
                if t is Identifier {
                    let end = run_end(s, pos, ByteClass::Word);
                    lemma_run_end_bounds(s, pos, ByteClass::Word);
                    let word = s.subrange(pos, end);
                    assert(t == TokenView::Identifier(word));
                    assert(is_word(word));
                }
                assert forall|i: int| 0 <= i < all.len() implies (#[trigger] all[i] matches
                TokenView::Identifier(name) ==> is_word(name)) by {
                    if i > 0 {
                        assert(all[i] == rest[i - 1]);
                    }
                }
            },
            None => {},
        }
    }
}

fn word_to_token(word: Vec<u8>) -> (t: Token)
    ensures
        t@ == word_token(word@),
{
    if bytes_eq(word.as_slice(), "import".as_bytes()) {
        Token::Keyword(Keyword::Import)
    } else if bytes_eq(word.as_slice(), "var".as_bytes()) || bytes_eq(
        word.as_slice(),
        "let".as_bytes(),
    ) {
        Token::Keyword(Keyword::Var)
    } else if bytes_eq(word.as_slice(), "if".as_bytes()) {
        Token::Keyword(Keyword::If)
    } else if bytes_eq(word.as_slice(), "else".as_bytes()) {
        Token::Keyword(Keyword::Else)
    } else if bytes_eq(word.as_slice(), "while".as_bytes()) {
        Token::Keyword(Keyword::While)
    } else if bytes_eq(word.as_slice(), "true".as_bytes()) {
        Token::Boolean(true)
    } else if bytes_eq(word.as_slice(), "false".as_bytes()) {
        Token::Boolean(false)
    } else {
        Token::Identifier(word)
    }
}

fn pair_to_operator(first: u8, second: u8) -> (r: Option<Operator>)
    ensures
        r == pair_operator(first, second),
{
    if first == EQUALS && second == EQUALS {
        Some(Operator::Equal)
    } else if first == BANG && second == EQUALS {
        Some(Operator::NotEqual)
    } else if first == LESS && second == EQUALS {
        Some(Operator::LessEqual)
    } else if first == GREATER && second == EQUALS {
        Some(Operator::GreaterEqual)
    } else if first == AMPERSAND && second == AMPERSAND {
        Some(Operator::And)
    } else if first == PIPE && second == PIPE {
        Some(Operator::Or)
    } else {
        None
    }
}

fn single_to_token(c: u8) -> (t: Token)
    ensures
        t@ == single_token(c),
{
    if c == PLUS {
        Token::Operator(Operator::Plus)
    } else if c == MINUS {
        Token::Operator(Operator::Minus)
    } else if c == STAR {
        Token::Operator(Operator::Star)
    } else if c == SLASH {
        Token::Operator(Operator::Slash)
    } else if c == PERCENT {
        Token::Operator(Operator::Percent)
    } else if c == LESS {
        Token::Operator(Operator::Less)
    } else if c == GREATER {
        Token::Operator(Operator::Greater)
    } else if c == BANG {
        Token::Operator(Operator::Bang)
    } else if c == EQUALS {
        Token::Operator(Operator::Assign)
    } else if c == LEFT_PAREN {
        Token::Delimiter(Delimiter::LeftParen)
    } else if c == RIGHT_PAREN {
        Token::Delimiter(Delimiter::RightParen)
    } else if c == LEFT_BRACE {
        Token::Delimiter(Delimiter::LeftBrace)
    } else if c == RIGHT_BRACE {
        Token::Delimiter(Delimiter::RightBrace)
    } else if c == LEFT_BRACKET {
        Token::Delimiter(Delimiter::LeftBracket)
    } else if c == RIGHT_BRACKET {
        Token::Delimiter(Delimiter::RightBracket)
    } else if c == COMMA {
        Token::Delimiter(Delimiter::Comma)
    } else if c == DOT {
        Token::Delimiter(Delimiter::Dot)
    } else if c == SEMICOLON {
        Token::Delimiter(Delimiter::Semicolon)
    } else if c == COLON {
        Token::Delimiter(Delimiter::Colon)
    } else {
        Token::Unknown(c)
    }
}

/// Reads the numeric literal that starts with the digit at `pos`.
fn scan_number(src: &[u8], pos: usize) -> (r: (Token, usize))
    requires
        pos < src@.len(),
        is_digit(src@[pos as int]),
    ensures
        scan(src@, pos as int).token == Some(r.0@),
        scan(src@, pos as int).next == r.1,
{
    let end = scan_run(src, pos, ByteClass::Digit);
    proof {
        lemma_run_end_bounds(src@, pos as int, ByteClass::Digit);
    }
    if end < src.len() && src[end] == DOT {
        let fraction_end = scan_run(src, end + 1, ByteClass::Digit);
        let kept_end = trim_trailing_zeros(src, end + 1, fraction_end);
        let mut digits = copy_range(src, pos, end);
        let mut kept = copy_range(src, end + 1, kept_end);
        digits.append(&mut kept);
        proof {
            lemma_run_end_bounds(src@, end + 1, ByteClass::Digit);
            let whole = src@.subrange(pos as int, end as int);
            let fraction = src@.subrange(end + 1, fraction_end as int);
            lemma_significant_len(fraction);
            assert(fraction.take(significant_len(fraction)) == src@.subrange(
                end + 1,
                kept_end as int,
            ));
            assert(digits@ == whole + fraction.take(significant_len(fraction)));
            assert(all_digits(digits@));
        }
        let value = match parse_digits(digits.as_slice(), u64::MAX) {
            Some(mantissa) => Decimal { mantissa, scale: kept_end - (end + 1) },
            None => Decimal { mantissa: 0, scale: 0 },
        };
        (Token::Float(value), fraction_end)
    } else {
        let digits = copy_range(src, pos, end);
        let value: i64 = match parse_digits(digits.as_slice(), i64::MAX as u64) {
            Some(v) => v as i64,
            None => 0,
        };
        (Token::Integer(value), end)
    }
}

/// Performs one step of the lexer at `pos`.
fn scan_token(src: &[u8], pos: usize) -> (r: (Option<Token>, usize))
    requires
        pos < src@.len(),
    ensures
        r.1 == scan(src@, pos as int).next,
        pos < r.1 <= src@.len(),
        match r.0 {
            Some(t) => scan(src@, pos as int).token == Some(t@),
            None => scan(src@, pos as int).token is None,
        },
{
    proof {
        lemma_scan_advances(src@, pos as int);
    }
    let c = src[pos];
    if byte_is_space(c) {
        (None, pos + 1)
    } else if c == SLASH && pos + 1 < src.len() && src[pos + 1] == SLASH {
        (None, scan_run(src, pos + 2, ByteClass::WithinLine))
    } else if c == QUOTE || c == APOSTROPHE {
        let close = scan_run(src, pos + 1, ByteClass::Until(c));
        let text = copy_range(src, pos + 1, close);
        let next = if close < src.len() {
            close + 1
        } else {
            close
        };
        (Some(Token::StringLiteral(text)), next)
    } else if byte_is_digit(c) {
        let (token, next) = scan_number(src, pos);
        (Some(token), next)
    } else if byte_is_word_start(c) {
        let end = scan_run(src, pos, ByteClass::Word);
        (Some(word_to_token(copy_range(src, pos, end))), end)
    } else if c == AT {
        let end = scan_run(src, pos + 1, ByteClass::Word);
        (Some(Token::Tag(copy_range(src, pos + 1, end))), end)
    } else {
        if pos + 1 < src.len() {
            match pair_to_operator(c, src[pos + 1]) {
                Some(op) => {
                    return (Some(Token::Operator(op)), pos + 2);
                },
                None => {},
            }
        }
        (Some(single_to_token(c)), pos + 1)
    }
}

/// Turns source bytes into tokens. Every input has a token sequence: bytes that
/// fit no rule become `Unknown` tokens, and the sequence always ends with the
/// end-of-input marker, which occurs nowhere else in it.
pub fn tokenize_bytes(source: &[u8]) -> (tokens: Vec<Token>)
    ensures
        tokens.deep_view() == lex(source@),
        ends_in_single_marker(tokens.deep_view()),
{
    let mut tokens: Vec<Token> = Vec::new();
    let mut pos: usize = 0;
    while pos < source.len()
        invariant
            0 <= pos <= source@.len(),
            tokens.deep_view() + lex_from(source@, pos as int) == lex(source@),
        decreases source@.len() - pos,
    {
        let ghost before = tokens.deep_view();
        let (found, next) = scan_token(source, pos);
        match found {
            Some(t) => {
                let ghost tv = t@;
                tokens.push(t);
                proof {
                    assert(tokens.deep_view() == before.push(tv));
                    assert(before.push(tv) + lex_from(source@, next as int) == before + (seq![tv]
                        + lex_from(source@, next as int)));
                }
            },
            None => {},
        }
        pos = next;
    }
    let ghost before = tokens.deep_view();
    tokens.push(Token::EndOfInput);
    proof {
        assert(tokens.deep_view() == before.push(TokenView::EndOfInput));
        assert(before.push(TokenView::EndOfInput) == before + seq![TokenView::EndOfInput]);
        lemma_lex_ends_in_single_marker(source@, 0);
    }
    tokens
}

/// Turns source text into tokens: the tokens of its UTF-8 bytes.
pub fn tokenize(source: &str) -> (tokens: Vec<Token>)
    ensures
        tokens.deep_view() == lex(source.spec_bytes()),
        ends_in_single_marker(tokens.deep_view()),
{
    tokenize_bytes(source.as_bytes())
}

} // verus!
