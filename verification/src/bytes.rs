//! Byte classes and scanning primitives shared by the lexer and the parser.

use vstd::prelude::*;
use crate::ascii::{
    CARRIAGE_RETURN, DIGIT_NINE, DIGIT_ZERO, LINE_FEED, LOWER_A, LOWER_Z, SPACE, TAB, UNDERSCORE,
    UPPER_A, UPPER_Z,
};

verus! {

pub open spec fn is_digit(b: u8) -> bool {
    DIGIT_ZERO <= b <= DIGIT_NINE
}

pub open spec fn is_lowercase(b: u8) -> bool {
    LOWER_A <= b <= LOWER_Z
}

pub open spec fn is_uppercase(b: u8) -> bool {
    UPPER_A <= b <= UPPER_Z
}

/// Bytes an identifier may start with: an ASCII letter or an underscore.
pub open spec fn is_word_start(b: u8) -> bool {
    is_lowercase(b) || is_uppercase(b) || b == UNDERSCORE
}

/// Bytes an identifier may continue with.
pub open spec fn is_word_byte(b: u8) -> bool {
    is_word_start(b) || is_digit(b)
}

pub open spec fn is_space(b: u8) -> bool {
    b == SPACE || b == TAB || b == LINE_FEED || b == CARRIAGE_RETURN
}

/// A set of bytes that a run of input may be drawn from.
#[derive(Clone, Copy, Debug)]
pub enum ByteClass {
    Digit,
    Word,
    /// Every byte but the line feed.
    WithinLine,
    /// Every byte but the given one.
    Until(u8),
}

impl ByteClass {
    pub open spec fn has(self, b: u8) -> bool {
        match self {
            ByteClass::Digit => is_digit(b),
            ByteClass::Word => is_word_byte(b),
            ByteClass::WithinLine => b != LINE_FEED,
            ByteClass::Until(stop) => b != stop,
        }
    }

    pub fn contains(&self, b: u8) -> (r: bool)
        ensures
            r == self.has(b),
    {
        match self {
            ByteClass::Digit => byte_is_digit(b),
            ByteClass::Word => byte_is_word(b),
            ByteClass::WithinLine => b != LINE_FEED,
            ByteClass::Until(stop) => b != *stop,
        }
    }
}

pub fn byte_is_digit(b: u8) -> (r: bool)
    ensures
        r == is_digit(b),
{
    DIGIT_ZERO <= b && b <= DIGIT_NINE
}

pub fn byte_is_lowercase(b: u8) -> (r: bool)
    ensures
        r == is_lowercase(b),
{
    LOWER_A <= b && b <= LOWER_Z
}

pub fn byte_is_word_start(b: u8) -> (r: bool)
    ensures
        r == is_word_start(b),
{
    (LOWER_A <= b && b <= LOWER_Z) || (UPPER_A <= b && b <= UPPER_Z) || b == UNDERSCORE
}

pub fn byte_is_word(b: u8) -> (r: bool)
    ensures
        r == is_word_byte(b),
{
    byte_is_word_start(b) || byte_is_digit(b)
}

pub fn byte_is_space(b: u8) -> (r: bool)
    ensures
        r == is_space(b),
{
    b == SPACE || b == TAB || b == LINE_FEED || b == CARRIAGE_RETURN
}

/// The end of the longest run of bytes of `class` that starts at `pos`.
pub open spec fn run_end(s: Seq<u8>, pos: int, class: ByteClass) -> int
    decreases s.len() - pos,
{
    if 0 <= pos < s.len() && class.has(s[pos]) {
        run_end(s, pos + 1, class)
    } else {
        pos
    }
}

pub proof fn lemma_run_end_bounds(s: Seq<u8>, pos: int, class: ByteClass)
    requires
        0 <= pos <= s.len(),
    ensures
        pos <= run_end(s, pos, class) <= s.len(),
        forall|i: int| pos <= i < run_end(s, pos, class) ==> class.has(#[trigger] s[i]),
        run_end(s, pos, class) < s.len() ==> !class.has(s[run_end(s, pos, class)]),
    decreases s.len() - pos,
{
    if pos < s.len() && class.has(s[pos]) {
        lemma_run_end_bounds(s, pos + 1, class);
    }
}

/// Scans forward from `pos` while the bytes belong to `class`.
pub(crate) fn scan_run(src: &[u8], pos: usize, class: ByteClass) -> (end: usize)
    requires
        pos <= src@.len(),
    ensures
        end == run_end(src@, pos as int, class),
        pos <= end <= src@.len(),
{
    let mut i: usize = pos;
    while i < src.len() && class.contains(src[i])
        invariant
            pos <= i <= src@.len(),
            run_end(src@, pos as int, class) == run_end(src@, i as int, class),
        decreases src@.len() - i,
    {
        i += 1;
    }
    i
}

/// Copies the bytes of `src` between `from` and `to`.
pub(crate) fn copy_range(src: &[u8], from: usize, to: usize) -> (out: Vec<u8>)
    requires
        from <= to <= src@.len(),
    ensures
        out@ == src@.subrange(from as int, to as int),
{
    let mut out: Vec<u8> = Vec::new();
    let mut i: usize = from;
    while i < to
        invariant
            from <= i <= to <= src@.len(),
            out@ == src@.subrange(from as int, i as int),
        decreases to - i,
    {
        out.push(src[i]);
        i += 1;
    }
    out
}

/// Whether two byte strings hold the same bytes.
pub fn bytes_eq(a: &[u8], b: &[u8]) -> (r: bool)
    ensures
        r == (a@ == b@),
{
    if a.len() != b.len() {
        return false;
    }
    let mut i: usize = 0;
    while i < a.len()
        invariant
            a@.len() == b@.len(),
            0 <= i <= a@.len(),
            a@.subrange(0, i as int) == b@.subrange(0, i as int),
        decreases a@.len() - i,
    {
        if a[i] != b[i] {
            return false;
        }
        proof {
            assert(a@.subrange(0, i + 1) == a@.subrange(0, i as int).push(a@[i as int]));
            assert(b@.subrange(0, i + 1) == b@.subrange(0, i as int).push(b@[i as int]));
        }
        i += 1;
    }
    proof {
        assert(a@ == a@.subrange(0, i as int));
        assert(b@ == b@.subrange(0, i as int));
    }
    true
}

} // verus!
