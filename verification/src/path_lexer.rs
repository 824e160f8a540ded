//! Lexer for SVG path data.
//!
//! The lexer works on the bytes of the path string.  Numbers are returned as the byte
//! range of their lexeme; every such lexeme is a well-formed decimal floating-point
//! literal (see [`valid_float_literal`]), so turning it into a binary floating-point
//! value cannot fail.

use vstd::prelude::*;
use vstd::string::StringSliceAdditionalSpecFns;

verus! {

/// A token of path data.
#[derive(Debug, PartialEq, Eq, Copy, Clone)]
pub enum Token {
    /// A number, given by the byte range `start..end` of its lexeme in the input.
    Number(NumberSpan),
    Flag(bool),
    Command(u8),
    Comma,
}

/// Byte range of a number lexeme in the path data.
#[derive(Debug, PartialEq, Eq, Copy, Clone)]
pub struct NumberSpan {
    pub start: usize,
    pub end: usize,
}

#[derive(Debug, PartialEq, Eq, Copy, Clone)]
pub enum LexError {
    ParseFloatError,
    UnexpectedByte(u8),
    UnexpectedEof,
}

// ---------------------------------------------------------------------------
// Character classes

/// ASCII whitespace as in `u8::is_ascii_whitespace`: space, tab, LF, FF, CR.
pub open spec fn is_ws(b: u8) -> bool {
    b == 0x20u8 || b == 0x09u8 || b == 0x0au8 || b == 0x0cu8 || b == 0x0du8
}

pub open spec fn is_digit(b: u8) -> bool {
    0x30u8 <= b <= 0x39u8
}

pub open spec fn is_alpha(b: u8) -> bool {
    (0x41u8 <= b <= 0x5au8) || (0x61u8 <= b <= 0x7au8)
}

/// `u8::to_ascii_uppercase`
pub open spec fn to_upper(b: u8) -> u8 {
    if 0x61u8 <= b <= 0x7au8 {
        (b - 32) as u8
    } else {
        b
    }
}

// ---------------------------------------------------------------------------
// The token grammar

/// Position after the run of whitespace starting at `i`.
pub open spec fn skip_ws(s: Seq<u8>, i: int) -> int
    decreases s.len() - i,
{
    if 0 <= i < s.len() && is_ws(s[i]) {
        skip_ws(s, i + 1)
    } else {
        i
    }
}

/// Position after the run of decimal digits starting at `i`.
pub open spec fn skip_digits(s: Seq<u8>, i: int) -> int
    decreases s.len() - i,
{
    if 0 <= i < s.len() && is_digit(s[i]) {
        skip_digits(s, i + 1)
    } else {
        i
    }
}

/// Position after an optional byte `c` at `i`.
pub open spec fn skip_opt(s: Seq<u8>, i: int, c: u8) -> int {
    if 0 <= i < s.len() && s[i] == c {
        i + 1
    } else {
        i
    }
}

/// Position after an optional sign at `i` (a `-`, or else a `+`).
pub open spec fn skip_sign(s: Seq<u8>, i: int) -> int {
    if skip_opt(s, i, 0x2du8) != i {
        i + 1
    } else {
        skip_opt(s, i, 0x2bu8)
    }
}

/// `sign? digits* '.'? digits*`: whether a digit was found, and the end position.
pub open spec fn simple_number(s: Seq<u8>, i: int) -> (bool, int) {
    let i1 = skip_sign(s, i);
    let i2 = skip_digits(s, i1);
    let i3 = skip_opt(s, i2, 0x2eu8);
    let i4 = skip_digits(s, i3);
    (i4 > i3 || i2 > i1, i4)
}

pub open spec fn is_exp_marker(s: Seq<u8>, i: int) -> bool {
    0 <= i < s.len() && (s[i] == 0x65u8 || s[i] == 0x45u8)
}

/// Lexes a number starting at `i`: the result and the position after it.
pub open spec fn number_token(s: Seq<u8>, i: int) -> (Result<Token, LexError>, int) {
    let (found, p) = simple_number(s, i);
    if !found && i != p {
        if p < s.len() {
            (Err(LexError::UnexpectedByte(s[p])), p)
        } else {
            (Err(LexError::UnexpectedEof), p)
        }
    } else if is_exp_marker(s, p) {
        let q1 = skip_sign(s, p + 1);
        let q2 = skip_digits(s, q1);
        if q2 > q1 {
            (Ok(Token::Number(NumberSpan { start: i as usize, end: q2 as usize })), q2)
        } else {
            (Err(LexError::ParseFloatError), q2)
        }
    } else {
        (Ok(Token::Number(NumberSpan { start: i as usize, end: p as usize })), p)
    }
}

/// What the lexer hands out: a position and a token or an error.
pub type LexItem = Option<(usize, Result<Token, LexError>)>;

/// One step of the lexer from position `p`, with `flags` flag tokens still required:
/// the item, the new position and the new number of required flags.
pub open spec fn lex_next(s: Seq<u8>, p: int, flags: u8) -> (LexItem, int, u8) {
    let q = skip_ws(s, p);
    if q < 0 || q >= s.len() {
        (None, q, flags)
    } else {
        let c = s[q];
        if c == 0x2cu8 {
            (Some((q as usize, Ok(Token::Comma))), q + 1, flags)
        } else if is_alpha(c) {
            (Some((q as usize, Ok(Token::Command(c)))), q + 1, flags)
        } else if flags > 0 && is_digit(c) {
            if c == 0x30u8 {
                (Some((q as usize, Ok(Token::Flag(false)))), q + 1, (flags - 1) as u8)
            } else if c == 0x31u8 {
                (Some((q as usize, Ok(Token::Flag(true)))), q + 1, (flags - 1) as u8)
            } else {
                (Some((q as usize, Err(LexError::UnexpectedByte(c)))), q, flags)
            }
        } else if is_digit(c) || c == 0x2du8 || c == 0x2bu8 || c == 0x2eu8 {
            let (r, q2) = number_token(s, q);
            (Some((q as usize, r)), q2, flags)
        } else {
            (Some((q as usize, Err(LexError::UnexpectedByte(c)))), q + 1, flags)
        }
    }
}

/// A decimal floating-point literal as accepted by `str::parse::<f64>` (without the
/// `inf`/`nan` forms):
/// `sign? (digits+ | digits+ '.' digits* | digits* '.' digits+) ([eE] sign? digits+)?`
pub open spec fn valid_float_literal(t: Seq<u8>) -> bool {
    let i1 = skip_sign(t, 0);
    let i2 = skip_digits(t, i1);
    let i3 = skip_opt(t, i2, 0x2eu8);
    let i4 = skip_digits(t, i3);
    &&& (i4 > i3 || i2 > i1)
    &&& (i4 == t.len() || (is_exp_marker(t, i4) && {
        let q1 = skip_sign(t, i4 + 1);
        let q2 = skip_digits(t, q1);
        q2 > q1 && q2 == t.len()
    }))
}

// ---------------------------------------------------------------------------
// Lemmas on the token grammar

pub proof fn lemma_skip_ws(s: Seq<u8>, i: int)
    requires
        0 <= i <= s.len(),
    ensures
        i <= skip_ws(s, i) <= s.len(),
        skip_ws(s, i) < s.len() ==> !is_ws(s[skip_ws(s, i)]),
        forall|k: int| i <= k < skip_ws(s, i) ==> is_ws(#[trigger] s[k]),
    decreases s.len() - i,
{
    if i < s.len() && is_ws(s[i]) {
        lemma_skip_ws(s, i + 1);
    }
}

pub proof fn lemma_skip_digits(s: Seq<u8>, i: int)
    requires
        0 <= i <= s.len(),
    ensures
        i <= skip_digits(s, i) <= s.len(),
        skip_digits(s, i) < s.len() ==> !is_digit(s[skip_digits(s, i)]),
        forall|k: int| i <= k < skip_digits(s, i) ==> is_digit(#[trigger] s[k]),
    decreases s.len() - i,
{
    if i < s.len() && is_digit(s[i]) {
        lemma_skip_digits(s, i + 1);
    }
}

pub proof fn lemma_simple_number(s: Seq<u8>, i: int)
    requires
        0 <= i <= s.len(),
    ensures
        i <= simple_number(s, i).1 <= s.len(),
{
    let i1 = skip_sign(s, i);
    lemma_skip_digits(s, i1);
    let i2 = skip_digits(s, i1);
    let i3 = skip_opt(s, i2, 0x2eu8);
    lemma_skip_digits(s, i3);
}

pub proof fn lemma_number_token(s: Seq<u8>, i: int)
    requires
        0 <= i < s.len(),
        s.len() <= usize::MAX,
        is_digit(s[i]) || s[i] == 0x2du8 || s[i] == 0x2bu8 || s[i] == 0x2eu8,
    ensures
        i < number_token(s, i).1 <= s.len(),
        number_token(s, i).0 matches Ok(Token::Number(n)) ==> {
            &&& n.start == i
            &&& n.end == number_token(s, i).1
        },
        number_token(s, i).0 matches Ok(t) ==> t is Number,
{
    lemma_simple_number(s, i);
    let (found, p) = simple_number(s, i);
    let i1 = skip_sign(s, i);
    lemma_skip_digits(s, i1);
    let i2 = skip_digits(s, i1);
    let i3 = skip_opt(s, i2, 0x2eu8);
    lemma_skip_digits(s, i3);
    if is_exp_marker(s, p) {
        let q1 = skip_sign(s, p + 1);
        lemma_skip_digits(s, q1);
    }
}

pub proof fn lemma_lex_next(s: Seq<u8>, p: int, flags: u8)
    requires
        0 <= p <= s.len(),
        s.len() <= usize::MAX,
    ensures
        ({
            let (item, q, f) = lex_next(s, p, flags);
            &&& p <= q <= s.len()
            &&& f <= flags
            &&& (item is None <==> skip_ws(s, p) == s.len())
            &&& (item is None ==> q == s.len())
            &&& (item matches Some((pos, r)) ==> {
                &&& pos == skip_ws(s, p)
                &&& pos < s.len()
                &&& (r is Ok ==> pos < q)
                &&& (r matches Ok(Token::Number(n)) ==> n.start == pos && n.end == q)
            })
        }),
{
    lemma_skip_ws(s, p);
    let q = skip_ws(s, p);
    if q < s.len() {
        let c = s[q];
        if !(c == 0x2cu8) && !is_alpha(c) && !(flags > 0 && is_digit(c)) && (is_digit(c) || c
            == 0x2du8 || c == 0x2bu8 || c == 0x2eu8) {
            lemma_number_token(s, q);
        }
    }
}

/// Every number lexeme that the lexer accepts is a well-formed float literal.
pub proof fn lemma_number_token_valid(s: Seq<u8>, i: int)
    requires
        0 <= i < s.len(),
        s.len() <= usize::MAX,
        is_digit(s[i]) || s[i] == 0x2du8 || s[i] == 0x2bu8 || s[i] == 0x2eu8,
        number_token(s, i).0 is Ok,
    ensures
        ({
            let end = number_token(s, i).1;
            valid_float_literal(s.subrange(i, end))
        }),
{
    lemma_number_token(s, i);
    let end = number_token(s, i).1;
    let t = s.subrange(i, end);
    let (found, p) = simple_number(s, i);
    let i1 = skip_sign(s, i);
    lemma_skip_digits(s, i1);
    let i2 = skip_digits(s, i1);
    let i3 = skip_opt(s, i2, 0x2eu8);
    lemma_skip_digits(s, i3);
    let i4 = skip_digits(s, i3);
    // Positions in `t` are shifted by `i`.
    assert(skip_sign(t, 0) == i1 - i);
    lemma_skip_digits_shift(s, i, end, i1);
    assert(skip_digits(t, i1 - i) == i2 - i);
    assert(skip_opt(t, i2 - i, 0x2eu8) == i3 - i);
    lemma_skip_digits_shift(s, i, end, i3);
    assert(skip_digits(t, i3 - i) == i4 - i);
    if is_exp_marker(s, p) {
        let q1 = skip_sign(s, p + 1);
        lemma_skip_digits(s, q1);
        let q2 = skip_digits(s, q1);
        assert(is_exp_marker(t, i4 - i));
        assert(skip_sign(t, i4 - i + 1) == q1 - i);
        lemma_skip_digits_shift(s, i, end, q1);
    }
}

/// `skip_digits` inside the window `s[i..end]` of a run that ends at or before `end`.
proof fn lemma_skip_digits_shift(s: Seq<u8>, i: int, end: int, j: int)
    requires
        0 <= i <= j <= end <= s.len(),
        skip_digits(s, j) <= end,
    ensures
        skip_digits(s.subrange(i, end), j - i) == skip_digits(s, j) - i,
    decreases end - j,
{
    let t = s.subrange(i, end);
    lemma_skip_digits(s, j);
    if j < end && is_digit(s[j]) {
        lemma_skip_digits_shift(s, i, end, j + 1);
    }
}


// ---------------------------------------------------------------------------
// The lexer

fn byte_is_ws(b: u8) -> (r: bool)
    ensures
        r == is_ws(b),
{
    b == 0x20u8 || b == 0x09u8 || b == 0x0au8 || b == 0x0cu8 || b == 0x0du8
}

fn byte_is_digit(b: u8) -> (r: bool)
    ensures
        r == is_digit(b),
{
    0x30u8 <= b && b <= 0x39u8
}

pub fn byte_is_alpha(b: u8) -> (r: bool)
    ensures
        r == is_alpha(b),
{
    (0x41u8 <= b && b <= 0x5au8) || (0x61u8 <= b && b <= 0x7au8)
}

/// `u8::to_ascii_uppercase`
pub fn byte_to_upper(b: u8) -> (r: u8)
    ensures
        r == to_upper(b),
{
    if 0x61u8 <= b && b <= 0x7au8 {
        b - 32
    } else {
        b
    }
}

/// Splits path data into tokens.
#[derive(Debug)]
pub struct Lexer<'a> {
    input: &'a [u8],
    pos: usize,
    flags_required: u8,
}

impl<'a> Lexer<'a> {
    /// The bytes being lexed.
    pub closed spec fn bytes(&self) -> Seq<u8> {
        self.input@
    }

    /// Position of the byte that the lexer will look at next.
    pub closed spec fn position(&self) -> int {
        self.pos as int
    }

    /// Number of flag tokens still required.
    pub closed spec fn flags(&self) -> u8 {
        self.flags_required
    }

    pub closed spec fn wf(&self) -> bool {
        &&& self.pos <= self.input@.len()
        &&& self.input@.len() <= usize::MAX
    }

    pub proof fn lemma_wf(&self)
        requires
            self.wf(),
        ensures
            self.bytes().len() <= usize::MAX,
            0 <= self.position() <= self.bytes().len(),
    {
    }

    pub fn new(input: &'a str) -> (l: Lexer<'a>)
        ensures
            l.wf(),
            l.bytes() == input.spec_bytes(),
            l.position() == 0,
            l.flags() == 0,
    {
        let bytes = input.as_bytes();
        let n = bytes.len();
        assert(bytes@.len() == n);
        Lexer { input: bytes, pos: 0, flags_required: 0 }
    }

    /// Length of the input, in bytes.
    pub fn input_len(&self) -> (n: usize)
        ensures
            n == self.bytes().len(),
    {
        self.input.len()
    }

    // The way Flag tokens work is a little annoying. We don't have
    // any way to distinguish between numbers and flags without context
    // from the parser. The only time we need to return flags is within the
    // argument sequence of an elliptical arc, and then we need 2 in a row
    // or it's an error. So, when the parser gets to that point, it calls
    // this method and we switch from our usual mode of handling digits as
    // numbers to looking for two 'flag' characters (either 0 or 1) in a row
    // (with optional intervening whitespace, and possibly comma tokens.)
    // Every time we find a flag we decrement flags_required.
    pub fn require_flags(&mut self)
        ensures
            final(self).flags() == 2,
            final(self).bytes() == old(self).bytes(),
            final(self).position() == old(self).position(),
            final(self).wf() == old(self).wf(),
    {
        self.flags_required = 2;
    }

    fn current_pos(&self) -> (p: usize)
        requires
            self.wf(),
        ensures
            p == self.position(),
    {
        if self.pos < self.input.len() {
            self.pos
        } else {
            self.input.len()
        }
    }

    fn advance(&mut self)
        requires
            old(self).wf(),
            old(self).position() < old(self).bytes().len(),
        ensures
            final(self).wf(),
            final(self).position() == old(self).position() + 1,
            final(self).bytes() == old(self).bytes(),
            final(self).flags() == old(self).flags(),
    {
        let n = self.input.len();
        assert(self.pos < n);
        self.pos = self.pos + 1;
    }

    fn advance_over_whitespace(&mut self) -> (found_some: bool)
        requires
            old(self).wf(),
        ensures
            final(self).wf(),
            final(self).position() == skip_ws(old(self).bytes(), old(self).position()),
            found_some == (final(self).position() != old(self).position()),
            final(self).position() >= old(self).position(),
            final(self).bytes() == old(self).bytes(),
            final(self).flags() == old(self).flags(),
    {
        let mut found_some = false;
        let ghost start = self.pos as int;
        while self.pos < self.input.len() && byte_is_ws(self.input[self.pos])
            invariant
                self.pos <= self.input@.len(),
                self.input@.len() <= usize::MAX,
                start <= self.pos,
                skip_ws(self.input@, start) == skip_ws(self.input@, self.pos as int),
                found_some == (self.pos != start),
                self.input == old(self).input,
                self.flags_required == old(self).flags_required,
                start == old(self).pos,
            decreases self.input@.len() - self.pos,
        {
            found_some = true;
            self.pos = self.pos + 1;
        }
        found_some
    }

    fn advance_over_optional(&mut self, needle: u8) -> (found: bool)
        requires
            old(self).wf(),
        ensures
            final(self).wf(),
            final(self).position() == skip_opt(old(self).bytes(), old(self).position(), needle),
            found == (final(self).position() != old(self).position()),
            final(self).position() >= old(self).position(),
            final(self).bytes() == old(self).bytes(),
            final(self).flags() == old(self).flags(),
    {
        if self.pos < self.input.len() && self.input[self.pos] == needle {
            self.advance();
            true
        } else {
            false
        }
    }

    fn advance_over_digits(&mut self) -> (found_some: bool)
        requires
            old(self).wf(),
        ensures
            final(self).wf(),
            final(self).position() == skip_digits(old(self).bytes(), old(self).position()),
            found_some == (final(self).position() != old(self).position()),
            final(self).position() >= old(self).position(),
            final(self).bytes() == old(self).bytes(),
            final(self).flags() == old(self).flags(),
    {
        let mut found_some = false;
        let ghost start = self.pos as int;
        while self.pos < self.input.len() && byte_is_digit(self.input[self.pos])
            invariant
                self.pos <= self.input@.len(),
                self.input@.len() <= usize::MAX,
                start <= self.pos,
                skip_digits(self.input@, start) == skip_digits(self.input@, self.pos as int),
                found_some == (self.pos != start),
                self.input == old(self).input,
                self.flags_required == old(self).flags_required,
                start == old(self).pos,
            decreases self.input@.len() - self.pos,
        {
            found_some = true;
            self.pos = self.pos + 1;
        }
        found_some
    }

    fn advance_over_sign(&mut self)
        requires
            old(self).wf(),
        ensures
            final(self).wf(),
            final(self).position() == skip_sign(old(self).bytes(), old(self).position()),
            final(self).position() >= old(self).position(),
            final(self).bytes() == old(self).bytes(),
            final(self).flags() == old(self).flags(),
    {
        let _ = self.advance_over_optional(0x2du8) || self.advance_over_optional(0x2bu8);
    }

    fn advance_over_simple_number(&mut self) -> (found: bool)
        requires
            old(self).wf(),
        ensures
            final(self).wf(),
            (found, final(self).position()) == simple_number(old(self).bytes(), old(self).position()),
            final(self).bytes() == old(self).bytes(),
            final(self).flags() == old(self).flags(),
    {
        self.advance_over_sign();
        let found_digit = self.advance_over_digits();
        let _ = self.advance_over_optional(0x2eu8);
        self.advance_over_digits() || found_digit
    }

    fn match_number(&mut self) -> (r: Result<Token, LexError>)
        requires
            old(self).wf(),
            old(self).position() < old(self).bytes().len(),
            ({
                let c = old(self).bytes()[old(self).position()];
                is_digit(c) || c == 0x2du8 || c == 0x2bu8 || c == 0x2eu8
            }),
        ensures
            final(self).wf(),
            (r, final(self).position()) == number_token(old(self).bytes(), old(self).position()),
            final(self).bytes() == old(self).bytes(),
            final(self).flags() == old(self).flags(),
    {
        // remember the beginning
        let start_pos = self.pos;
        if !self.advance_over_simple_number() && start_pos != self.current_pos() {
            if self.pos < self.input.len() {
                return Err(LexError::UnexpectedByte(self.input[self.pos]));
            } else {
                return Err(LexError::UnexpectedEof);
            }
        }
        if self.advance_over_optional(0x65u8) || self.advance_over_optional(0x45u8) {
            self.advance_over_sign();
            if !self.advance_over_digits() {
                // An exponent marker must be followed by digits for the number to be a
                // valid floating-point literal.
                return Err(LexError::ParseFloatError);
            }
        }
        let end_pos = self.current_pos();
        Ok(Token::Number(NumberSpan { start: start_pos, end: end_pos }))
    }

    /// Returns the next token and its position, or `None` at the end of the input.
    pub fn next(&mut self) -> (item: LexItem)
        requires
            old(self).wf(),
        ensures
            final(self).wf(),
            (item, final(self).position(), final(self).flags()) == lex_next(
                old(self).bytes(),
                old(self).position(),
                old(self).flags(),
            ),
            final(self).bytes() == old(self).bytes(),
    {
        proof {
            lemma_skip_ws(self.input@, self.pos as int);
        }
        // eat whitespace
        self.advance_over_whitespace();

        if self.pos >= self.input.len() {
            return None;
        }
        let pos = self.pos;
        let c = self.input[pos];
        if c == 0x2cu8 {
            // commas are separators
            self.advance();
            Some((pos, Ok(Token::Comma)))
        } else if byte_is_alpha(c) {
            // alphabetic chars are commands
            self.advance();
            Some((pos, Ok(Token::Command(c))))
        } else if self.flags_required > 0 && byte_is_digit(c) {
            if c == 0x30u8 {
                self.flags_required = self.flags_required - 1;
                self.advance();
                Some((pos, Ok(Token::Flag(false))))
            } else if c == 0x31u8 {
                self.flags_required = self.flags_required - 1;
                self.advance();
                Some((pos, Ok(Token::Flag(true))))
            } else {
                Some((pos, Err(LexError::UnexpectedByte(c))))
            }
        } else if byte_is_digit(c) || c == 0x2du8 || c == 0x2bu8 || c == 0x2eu8 {
            Some((pos, self.match_number()))
        } else {
            self.advance();
            Some((pos, Err(LexError::UnexpectedByte(c))))
        }
    }
}


/// Whether `text` is a decimal floating-point literal, as `str::parse::<f64>` accepts it
/// (without the `inf` and `nan` forms).
pub fn is_float_literal(text: &str) -> (r: bool)
    ensures
        r == valid_float_literal(text.spec_bytes()),
{
    let mut lexer = Lexer::new(text);
    let n = lexer.input_len();
    let found = lexer.advance_over_simple_number();
    if !found {
        return false;
    }
    let p = lexer.current_pos();
    if p == n {
        return true;
    }
    if lexer.advance_over_optional(0x65u8) || lexer.advance_over_optional(0x45u8) {
        lexer.advance_over_sign();
        let found_digits = lexer.advance_over_digits();
        found_digits && lexer.current_pos() == n
    } else {
        false
    }
}

} // verus!
