//! Parse failures: what was missing and where.

use vstd::prelude::*;
use vstd::string::StringExecFns;

verus! {

/// Why a token sequence is no program.
#[derive(Clone, Copy, Debug, PartialEq, Eq, Structural)]
pub enum ParseErrorKind {
    /// No statement starts with the token found.
    UnexpectedToken,
    /// No expression starts with the token found.
    ExpectedExpression,
    ExpectedIdentifier,
    /// The `=` of a binding is missing.
    ExpectedAssign,
    ExpectedLeftParen,
    ExpectedRightParen,
    ExpectedRightBracket,
    ExpectedRightBrace,
}

impl ParseErrorKind {
    /// What the failure means, in words.
    pub open spec fn description(self) -> Seq<char> {
        match self {
            ParseErrorKind::UnexpectedToken => "no statement starts here"@,
            ParseErrorKind::ExpectedExpression => "expected an expression"@,
            ParseErrorKind::ExpectedIdentifier => "expected a name"@,
            ParseErrorKind::ExpectedAssign => "expected '=' in the binding"@,
            ParseErrorKind::ExpectedLeftParen => "expected '('"@,
            ParseErrorKind::ExpectedRightParen => "expected ')'"@,
            ParseErrorKind::ExpectedRightBracket => "expected ']'"@,
            ParseErrorKind::ExpectedRightBrace => "expected '}'"@,
        }
    }

    /// Says in words what the failure means.
    pub fn describe(&self) -> (text: &'static str)
        ensures
            text@ == self.description(),
    {
        match self {
            ParseErrorKind::UnexpectedToken => "no statement starts here",
            ParseErrorKind::ExpectedExpression => "expected an expression",
            ParseErrorKind::ExpectedIdentifier => "expected a name",
            ParseErrorKind::ExpectedAssign => "expected '=' in the binding",
            ParseErrorKind::ExpectedLeftParen => "expected '('",
            ParseErrorKind::ExpectedRightParen => "expected ')'",
            ParseErrorKind::ExpectedRightBracket => "expected ']'",
            ParseErrorKind::ExpectedRightBrace => "expected '}'",
        }
    }
}

/// A parse failure: what was missing, and the index of the token at which it was noticed.
#[derive(Clone, Copy, Debug, PartialEq, Eq, Structural)]
pub struct ParseError {
    pub kind: ParseErrorKind,
    pub position: usize,
}

/// The character of a decimal digit.
pub open spec fn digit_char(d: nat) -> char {
    if d == 0 {
        '0'
    } else if d == 1 {
        '1'
    } else if d == 2 {
        '2'
    } else if d == 3 {
        '3'
    } else if d == 4 {
        '4'
    } else if d == 5 {
        '5'
    } else if d == 6 {
        '6'
    } else if d == 7 {
        '7'
    } else if d == 8 {
        '8'
    } else {
        '9'
    }
}

/// A number in decimal digits, as characters.
pub open spec fn decimal_chars(n: nat) -> Seq<char>
    decreases n,
{
    if n < 10 {
        seq![digit_char(n)]
    } else {
        decimal_chars(n / 10).push(digit_char(n % 10))
    }
}

fn digit_text(d: usize) -> (text: &'static str)
    requires
        d < 10,
    ensures
        text@ == seq![digit_char(d as nat)],
{
    proof {
        reveal_strlit("0");
        reveal_strlit("1");
        reveal_strlit("2");
        reveal_strlit("3");
        reveal_strlit("4");
        reveal_strlit("5");
        reveal_strlit("6");
        reveal_strlit("7");
        reveal_strlit("8");
        reveal_strlit("9");
    }
    let text = if d == 0 {
        "0"
    } else if d == 1 {
        "1"
    } else if d == 2 {
        "2"
    } else if d == 3 {
        "3"
    } else if d == 4 {
        "4"
    } else if d == 5 {
        "5"
    } else if d == 6 {
        "6"
    } else if d == 7 {
        "7"
    } else if d == 8 {
        "8"
    } else {
        "9"
    };
    assert(text@ =~= seq![digit_char(d as nat)]);
    text
}

fn append_number(out: &mut String, n: usize)
    ensures
        final(out)@ == old(out)@ + decimal_chars(n as nat),
    decreases n,
{
    if n >= 10 {
        append_number(out, n / 10);
    }
    out.append(digit_text(n % 10));
    assert(final(out)@ =~= old(out)@ + decimal_chars(n as nat));
}

impl ParseError {
    /// The failure as a sentence: what was missing, and at which token.
    pub open spec fn message_text(self) -> Seq<char> {
        self.kind.description() + " at token "@ + decimal_chars(self.position as nat)
    }

    /// Says what was missing and at which token.
    pub fn message(&self) -> (text: String)
        ensures
            text@ == self.message_text(),
    {
        let mut text = String::from_str(self.kind.describe());
        text.append(" at token ");
        append_number(&mut text, self.position);
        text
    }
}

} // verus!
