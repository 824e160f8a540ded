//! Parser for SVG path data.
//!
//! This is a recursive descent parser for path data in SVG files,
//! as specified in <https://www.w3.org/TR/SVG/paths.html#PathDataBNF>.
//! Some peculiarities:
//!
//! - SVG allows optional commas inside coordinate pairs, and between
//!   coordinate pairs.  So, for example, these are equivalent:
//!
//!       M 10 20 30 40
//!       M 10, 20 30, 40
//!       M 10, 20, 30, 40
//!
//! - Whitespace is optional.  These are equivalent:
//!
//!       M10,20 30,40
//!       M10,20,30,40
//!
//!   These are also equivalent:
//!
//!       M-10,20-30-40
//!       M -10 20 -30 -40
//!
//!       M.1-2,3E2-4
//!       M 0.1 -2 300 -4
//!
//! The parser produces [`PathSegment`]s: each drawing command with its arguments as
//! number lexemes, and whether its coordinates are absolute or relative to the current
//! point.  Turning the lexemes into binary floating-point coordinates, and relative
//! coordinates into absolute ones, is floating-point arithmetic and is left to the caller.

use vstd::prelude::*;
use vstd::string::StringSliceAdditionalSpecFns;

use crate::path_lexer::{
    byte_to_upper, is_alpha, is_digit, is_ws, lex_next, lemma_lex_next, lemma_number_token,
    lemma_number_token_valid, number_token, skip_ws, to_upper, valid_float_literal, LexError,
    LexItem, Lexer, NumberSpan, Token,
};

verus! {

/// One drawing command of path data, with its arguments.
#[derive(Debug, PartialEq, Eq, Copy, Clone)]
pub enum PathSegment {
    MoveTo { absolute: bool, x: NumberSpan, y: NumberSpan },
    LineTo { absolute: bool, x: NumberSpan, y: NumberSpan },
    HorizontalLineTo { absolute: bool, x: NumberSpan },
    VerticalLineTo { absolute: bool, y: NumberSpan },
    CurveTo {
        absolute: bool,
        x2: NumberSpan,
        y2: NumberSpan,
        x3: NumberSpan,
        y3: NumberSpan,
        x4: NumberSpan,
        y4: NumberSpan,
    },
    SmoothCurveTo { absolute: bool, x3: NumberSpan, y3: NumberSpan, x4: NumberSpan, y4: NumberSpan },
    QuadraticCurveTo { absolute: bool, a: NumberSpan, b: NumberSpan, c: NumberSpan, d: NumberSpan },
    SmoothQuadraticCurveTo { absolute: bool, c: NumberSpan, d: NumberSpan },
    Arc {
        absolute: bool,
        rx: NumberSpan,
        ry: NumberSpan,
        x_axis_rotation: NumberSpan,
        large_arc: bool,
        sweep: bool,
        x: NumberSpan,
        y: NumberSpan,
    },
    ClosePath,
}

#[derive(Debug, PartialEq, Eq, Copy, Clone)]
pub enum ErrorKind {
    UnexpectedToken(Token),
    UnexpectedCommand(u8),
    UnexpectedEof,
    LexError(LexError),
}

#[derive(Debug, PartialEq, Eq, Copy, Clone)]
pub struct ParseError {
    pub position: usize,
    pub kind: ErrorKind,
}

impl ParseError {
    fn new(pos: usize, k: ErrorKind) -> (e: ParseError)
        ensures
            e == (ParseError { position: pos, kind: k }),
    {
        ParseError { position: pos, kind: k }
    }
}

// ---------------------------------------------------------------------------
// The grammar, over the state of the token stream.
//
// A parser state is (lexer position, flags still required by the lexer, current token).

pub type PState = (int, u8, LexItem);

pub open spec fn state_wf(s: Seq<u8>, st: PState) -> bool {
    &&& s.len() <= usize::MAX
    &&& 0 <= st.0 <= s.len()
}

/// Consumes the current token: lexes the next one.
pub open spec fn advance(s: Seq<u8>, st: PState) -> PState {
    let (item, p, f) = lex_next(s, st.0, st.1);
    (p, f, item)
}

/// The first token of `s`.
pub open spec fn initial_state(s: Seq<u8>) -> PState {
    advance(s, (0, 0u8, None))
}

/// The error reported when the current token is not the expected one.
pub open spec fn cur_error(s: Seq<u8>, st: PState) -> ParseError {
    match st.2 {
        Some((pos, Ok(t))) => ParseError { position: pos, kind: ErrorKind::UnexpectedToken(t) },
        Some((pos, Err(e))) => ParseError { position: pos, kind: ErrorKind::LexError(e) },
        None => ParseError { position: s.len() as usize, kind: ErrorKind::UnexpectedEof },
    }
}

/// An error of kind `kind` at the current token.
pub open spec fn error_here(st: PState, kind: ErrorKind) -> ParseError {
    match st.2 {
        Some((pos, _)) => ParseError { position: pos, kind },
        None => ParseError { position: 0, kind },
    }
}

pub open spec fn match_command(s: Seq<u8>, st: PState) -> Result<(u8, PState), ParseError> {
    match st.2 {
        Some((_, Ok(Token::Command(c)))) => Ok((c, advance(s, st))),
        _ => Err(cur_error(s, st)),
    }
}

pub open spec fn match_number(s: Seq<u8>, st: PState) -> Result<(NumberSpan, PState), ParseError> {
    match st.2 {
        Some((_, Ok(Token::Number(n)))) => Ok((n, advance(s, st))),
        _ => Err(cur_error(s, st)),
    }
}

pub open spec fn match_comma(s: Seq<u8>, st: PState) -> Result<PState, ParseError> {
    match st.2 {
        Some((_, Ok(Token::Comma))) => Ok(advance(s, st)),
        _ => Err(cur_error(s, st)),
    }
}

pub open spec fn match_flag(s: Seq<u8>, st: PState) -> Result<(bool, PState), ParseError> {
    match st.2 {
        Some((_, Ok(Token::Flag(f)))) => Ok((f, advance(s, st))),
        _ => Err(cur_error(s, st)),
    }
}

pub open spec fn eat_optional_comma(s: Seq<u8>, st: PState) -> PState {
    match match_comma(s, st) {
        Ok(st2) => st2,
        Err(_) => st,
    }
}

pub open spec fn peek_number(st: PState) -> bool {
    st.2 matches Some((_, Ok(Token::Number(_))))
}

pub open spec fn match_comma_number(s: Seq<u8>, st: PState) -> Result<(NumberSpan, PState), ParseError> {
    match_number(s, eat_optional_comma(s, st))
}

pub open spec fn coordinate_pair(s: Seq<u8>, st: PState) -> Result<
    ((NumberSpan, NumberSpan), PState),
    ParseError,
> {
    match match_number(s, st) {
        Err(e) => Err(e),
        Ok((x, st1)) => match match_comma_number(s, st1) {
            Err(e) => Err(e),
            Ok((y, st2)) => Ok(((x, y), st2)),
        },
    }
}

/// A coordinate pair preceded by an optional comma.
pub open spec fn comma_pair(s: Seq<u8>, st: PState) -> Result<
    ((NumberSpan, NumberSpan), PState),
    ParseError,
> {
    coordinate_pair(s, eat_optional_comma(s, st))
}

/// A number followed by the two flags of an elliptical arc.  The lexer is told to
/// look for flags before the token after the number is lexed.
pub open spec fn number_and_flags(s: Seq<u8>, st: PState) -> Result<
    ((NumberSpan, bool, bool), PState),
    ParseError,
> {
    match st.2 {
        Some((_, Ok(Token::Number(n)))) => {
            let st1 = advance(s, (st.0, 2u8, st.2));
            match match_flag(s, eat_optional_comma(s, st1)) {
                Err(e) => Err(e),
                Ok((f1, st2)) => match match_flag(s, eat_optional_comma(s, st2)) {
                    Err(e) => Err(e),
                    Ok((f2, st3)) => Ok(((n, f1, f2), st3)),
                },
            }
        },
        _ => Err(cur_error(s, st)),
    }
}

/// Two coordinate pairs, the second after an optional comma.
pub open spec fn two_pairs(s: Seq<u8>, st: PState) -> Result<
    ((NumberSpan, NumberSpan, NumberSpan, NumberSpan), PState),
    ParseError,
> {
    match coordinate_pair(s, st) {
        Err(e) => Err(e),
        Ok(((x1, y1), st1)) => match comma_pair(s, st1) {
            Err(e) => Err(e),
            Ok(((x2, y2), st2)) => Ok(((x1, y1, x2, y2), st2)),
        },
    }
}

/// The arguments of a curveto: three coordinate pairs.
pub open spec fn curveto_args(s: Seq<u8>, st: PState, absolute: bool) -> Result<
    (PathSegment, PState),
    ParseError,
> {
    match two_pairs(s, st) {
        Err(e) => Err(e),
        Ok(((x2, y2, x3, y3), st1)) => match comma_pair(s, st1) {
            Err(e) => Err(e),
            Ok(((x4, y4), st2)) => Ok(
                (PathSegment::CurveTo { absolute, x2, y2, x3, y3, x4, y4 }, st2),
            ),
        },
    }
}

/// The arguments of an elliptical arc: radii, rotation, two flags, end point.
pub open spec fn arc_args(s: Seq<u8>, st: PState, absolute: bool) -> Result<
    (PathSegment, PState),
    ParseError,
> {
    match match_number(s, st) {
        Err(e) => Err(e),
        Ok((rx, st1)) => match match_comma_number(s, st1) {
            Err(e) => Err(e),
            Ok((ry, st2)) => match number_and_flags(s, eat_optional_comma(s, st2)) {
                Err(e) => Err(e),
                Ok(((x_axis_rotation, large_arc, sweep), st3)) => match comma_pair(s, st3) {
                    Err(e) => Err(e),
                    Ok(((x, y), st4)) => Ok(
                        (
                            PathSegment::Arc {
                                absolute,
                                rx,
                                ry,
                                x_axis_rotation,
                                large_arc,
                                sweep,
                                x,
                                y,
                            },
                            st4,
                        ),
                    ),
                },
            },
        },
    }
}

/// The arguments of one drawto command `cmd` (an uppercase letter other than `M` and
/// `Z`), and the segment they make.
#[verifier::opaque]
pub open spec fn segment_args(s: Seq<u8>, st: PState, cmd: u8, absolute: bool) -> Result<
    (PathSegment, PState),
    ParseError,
> {
    if cmd == 0x4cu8 {
        // L
        match coordinate_pair(s, st) {
            Err(e) => Err(e),
            Ok(((x, y), st1)) => Ok((PathSegment::LineTo { absolute, x, y }, st1)),
        }
    } else if cmd == 0x48u8 {
        // H
        match match_number(s, st) {
            Err(e) => Err(e),
            Ok((x, st1)) => Ok((PathSegment::HorizontalLineTo { absolute, x }, st1)),
        }
    } else if cmd == 0x56u8 {
        // V
        match match_number(s, st) {
            Err(e) => Err(e),
            Ok((y, st1)) => Ok((PathSegment::VerticalLineTo { absolute, y }, st1)),
        }
    } else if cmd == 0x43u8 {
        // C
        curveto_args(s, st, absolute)
    } else if cmd == 0x53u8 {
        // S
        match two_pairs(s, st) {
            Err(e) => Err(e),
            Ok(((x3, y3, x4, y4), st1)) => Ok(
                (PathSegment::SmoothCurveTo { absolute, x3, y3, x4, y4 }, st1),
            ),
        }
    } else if cmd == 0x51u8 {
        // Q
        match two_pairs(s, st) {
            Err(e) => Err(e),
            Ok(((a, b, c, d), st1)) => Ok(
                (PathSegment::QuadraticCurveTo { absolute, a, b, c, d }, st1),
            ),
        }
    } else if cmd == 0x54u8 {
        // T
        match coordinate_pair(s, st) {
            Err(e) => Err(e),
            Ok(((c, d), st1)) => Ok((PathSegment::SmoothQuadraticCurveTo { absolute, c, d }, st1)),
        }
    } else {
        // A
        arc_args(s, st, absolute)
    }
}

/// Whether an argument sequence ends here; a separating comma is consumed.
pub open spec fn should_break_arg_sequence(s: Seq<u8>, st: PState) -> (bool, PState) {
    match match_comma(s, st) {
        Ok(st2) => (false, st2),
        Err(_) => (!peek_number(st), st),
    }
}

/// Measure of the remaining input that every consumed token decreases.
pub open spec fn measure(s: Seq<u8>, st: PState) -> int {
    s.len() - st.0 + if st.2 matches Some((_, Ok(_))) {
        1int
    } else {
        0int
    }
}

pub open spec fn is_drawto_args_command(cmd: u8) -> bool {
    cmd == 0x4cu8 || cmd == 0x48u8 || cmd == 0x56u8 || cmd == 0x43u8 || cmd == 0x53u8 || cmd
        == 0x51u8 || cmd == 0x54u8 || cmd == 0x41u8
}

/// A sequence of argument groups for the command `cmd`: the segments emitted, and the
/// state after the sequence or the error that ended it.
pub open spec fn arg_sequence(s: Seq<u8>, st: PState, cmd: u8, absolute: bool) -> (
    Seq<PathSegment>,
    Result<PState, ParseError>,
)
    decreases measure(s, st),
{
    if !state_wf(s, st) {
        (seq![], Err(cur_error(s, st)))
    } else {
        match segment_args(s, st, cmd, absolute) {
            Err(e) => (seq![], Err(e)),
            Ok((seg, st1)) => {
                let (brk, st2) = should_break_arg_sequence(s, st1);
                if brk {
                    (seq![seg], Ok(st2))
                } else {
                    proof {
                        lemma_segment_args(s, st, cmd, absolute);
                        lemma_should_break(s, st1);
                    }
                    let (rest, r) = arg_sequence(s, st2, cmd, absolute);
                    (seq![seg] + rest, r)
                }
            },
        }
    }
}

/// `M` or `m`, its coordinate pair, and the implicit lineto sequence that may follow.
pub open spec fn moveto(s: Seq<u8>, st: PState) -> (Seq<PathSegment>, Result<PState, ParseError>) {
    match match_command(s, st) {
        Err(e) => (seq![], Err(e)),
        Ok((c, st1)) => {
            if c == 0x4du8 || c == 0x6du8 {
                let absolute = c == 0x4du8;
                match coordinate_pair(s, st1) {
                    Err(e) => (seq![], Err(e)),
                    Ok(((x, y), st2)) => {
                        let seg = PathSegment::MoveTo { absolute, x, y };
                        match match_comma(s, st2) {
                            Ok(st3) => {
                                let (rest, r) = arg_sequence(s, st3, 0x4cu8, absolute);
                                (seq![seg] + rest, r)
                            },
                            Err(_) => if peek_number(st2) {
                                let (rest, r) = arg_sequence(s, st2, 0x4cu8, absolute);
                                (seq![seg] + rest, r)
                            } else {
                                (seq![seg], Ok(st2))
                            },
                        }
                    },
                }
            } else {
                (seq![], Err(error_here(st1, ErrorKind::UnexpectedCommand(c))))
            }
        },
    }
}

/// One drawto command, if the current token is a command other than a moveto: the
/// segments, and whether a command was consumed.
pub open spec fn drawto_command(s: Seq<u8>, st: PState) -> (
    Seq<PathSegment>,
    Result<(bool, PState), ParseError>,
) {
    match st.2 {
        Some((_, Ok(Token::Command(c)))) => {
            if c == 0x4du8 || c == 0x6du8 {
                (seq![], Ok((false, st)))
            } else {
                let st1 = advance(s, st);
                let up = to_upper(c);
                let absolute = c == up;
                if up == 0x5au8 {
                    (seq![PathSegment::ClosePath], Ok((true, st1)))
                } else if is_drawto_args_command(up) {
                    let (segs, r) = arg_sequence(s, st1, up, absolute);
                    match r {
                        Ok(st2) => (segs, Ok((true, st2))),
                        Err(e) => (segs, Err(e)),
                    }
                } else {
                    (seq![], Ok((false, st1)))
                }
            }
        },
        _ => (seq![], Ok((false, st))),
    }
}

pub open spec fn optional_drawto_commands(s: Seq<u8>, st: PState) -> (
    Seq<PathSegment>,
    Result<PState, ParseError>,
)
    decreases measure(s, st),
{
    if !state_wf(s, st) {
        (seq![], Ok(st))
    } else {
        let (segs, r) = drawto_command(s, st);
        match r {
            Err(e) => (segs, Err(e)),
            Ok((false, st1)) => (segs, Ok(st1)),
            Ok((true, st1)) => {
                proof {
                    lemma_drawto_command(s, st);
                }
                let (rest, r2) = optional_drawto_commands(s, st1);
                (segs + rest, r2)
            },
        }
    }
}

pub open spec fn moveto_drawto_command_group(s: Seq<u8>, st: PState) -> (
    Seq<PathSegment>,
    Result<PState, ParseError>,
) {
    let (segs, r) = moveto(s, st);
    match r {
        Err(e) => (segs, Err(e)),
        Ok(st1) => {
            let (segs2, r2) = optional_drawto_commands(s, st1);
            (segs + segs2, r2)
        },
    }
}

pub open spec fn moveto_drawto_command_groups(s: Seq<u8>, st: PState) -> (
    Seq<PathSegment>,
    Result<(), ParseError>,
)
    decreases measure(s, st),
{
    if !state_wf(s, st) {
        (seq![], Ok(()))
    } else {
        let (segs, r) = moveto_drawto_command_group(s, st);
        match r {
            Err(e) => (segs, Err(e)),
            Ok(st1) => {
                if st1.2 is None {
                    (segs, Ok(()))
                } else {
                    proof {
                        lemma_group(s, st);
                    }
                    let (rest, r2) = moveto_drawto_command_groups(s, st1);
                    (segs + rest, r2)
                }
            },
        }
    }
}

/// The segments that the path data `s` describes, and the error that stopped the
/// parser, if any.  The segments before an error are kept.
pub open spec fn parse_path_spec(s: Seq<u8>) -> (Seq<PathSegment>, Result<(), ParseError>) {
    let st0 = initial_state(s);
    if st0.2 is None {
        (seq![], Ok(()))
    } else {
        moveto_drawto_command_groups(s, st0)
    }
}

// ---------------------------------------------------------------------------
// Lemmas: every consumed token decreases the measure

pub proof fn lemma_advance(s: Seq<u8>, st: PState)
    requires
        state_wf(s, st),
    ensures
        state_wf(s, advance(s, st)),
        measure(s, advance(s, st)) <= s.len() - st.0,
        st.2 matches Some((_, Ok(_))) ==> measure(s, advance(s, st)) < measure(s, st),
        advance(s, st).2 matches Some((pos, _)) ==> pos < s.len(),
{
    lemma_lex_next(s, st.0, st.1);
    crate::path_lexer::lemma_skip_ws(s, st.0);
}

pub proof fn lemma_match(s: Seq<u8>, st: PState)
    requires
        state_wf(s, st),
    ensures
        match_command(s, st) matches Ok((_, st2)) ==> state_wf(s, st2) && measure(s, st2)
            < measure(s, st),
        match_number(s, st) matches Ok((_, st2)) ==> state_wf(s, st2) && measure(s, st2)
            < measure(s, st),
        match_comma(s, st) matches Ok(st2) ==> state_wf(s, st2) && measure(s, st2) < measure(
            s,
            st,
        ),
        match_flag(s, st) matches Ok((_, st2)) ==> state_wf(s, st2) && measure(s, st2) < measure(
            s,
            st,
        ),
        state_wf(s, eat_optional_comma(s, st)),
        measure(s, eat_optional_comma(s, st)) <= measure(s, st),
{
    lemma_advance(s, st);
}

pub proof fn lemma_coordinate_pair(s: Seq<u8>, st: PState)
    requires
        state_wf(s, st),
    ensures
        coordinate_pair(s, st) matches Ok((_, st2)) ==> state_wf(s, st2) && measure(s, st2)
            < measure(s, st),
        comma_pair(s, st) matches Ok((_, st2)) ==> state_wf(s, st2) && measure(s, st2) < measure(
            s,
            st,
        ),
        match_comma_number(s, st) matches Ok((_, st2)) ==> state_wf(s, st2) && measure(s, st2)
            < measure(s, st),
{
    lemma_match(s, st);
    let stc = eat_optional_comma(s, st);
    lemma_match(s, stc);
    if let Ok((_, st1)) = match_number(s, st) {
        lemma_match(s, st1);
        lemma_match(s, eat_optional_comma(s, st1));
    }
    if let Ok((_, st1)) = match_number(s, stc) {
        lemma_match(s, st1);
        lemma_match(s, eat_optional_comma(s, st1));
    }
}

pub proof fn lemma_number_and_flags(s: Seq<u8>, st: PState)
    requires
        state_wf(s, st),
    ensures
        number_and_flags(s, st) matches Ok((_, st2)) ==> state_wf(s, st2) && measure(s, st2)
            < measure(s, st),
{
    if let Some((_, Ok(Token::Number(n)))) = st.2 {
        let stf = (st.0, 2u8, st.2);
        lemma_advance(s, stf);
        let st1 = advance(s, stf);
        lemma_match(s, st1);
        let st1c = eat_optional_comma(s, st1);
        lemma_match(s, st1c);
        if let Ok((f1, st2)) = match_flag(s, st1c) {
            lemma_match(s, st2);
            lemma_match(s, eat_optional_comma(s, st2));
        }
    }
}

pub proof fn lemma_two_pairs(s: Seq<u8>, st: PState)
    requires
        state_wf(s, st),
    ensures
        two_pairs(s, st) matches Ok((_, st2)) ==> state_wf(s, st2) && measure(s, st2) < measure(
            s,
            st,
        ),
{
    lemma_coordinate_pair(s, st);
    if let Ok((_, st1)) = coordinate_pair(s, st) {
        lemma_coordinate_pair(s, st1);
    }
}

pub proof fn lemma_curveto_args(s: Seq<u8>, st: PState, absolute: bool)
    requires
        state_wf(s, st),
    ensures
        curveto_args(s, st, absolute) matches Ok((_, st2)) ==> state_wf(s, st2) && measure(
            s,
            st2,
        ) < measure(s, st),
{
    lemma_two_pairs(s, st);
    if let Ok((_, st1)) = two_pairs(s, st) {
        lemma_coordinate_pair(s, st1);
    }
}

pub proof fn lemma_arc_args(s: Seq<u8>, st: PState, absolute: bool)
    requires
        state_wf(s, st),
    ensures
        arc_args(s, st, absolute) matches Ok((_, st2)) ==> state_wf(s, st2) && measure(s, st2)
            < measure(s, st),
{
    lemma_match(s, st);
    if let Ok((_, st1)) = match_number(s, st) {
        lemma_coordinate_pair(s, st1);
        if let Ok((_, st2)) = match_comma_number(s, st1) {
            lemma_match(s, st2);
            let st2c = eat_optional_comma(s, st2);
            lemma_number_and_flags(s, st2c);
            if let Ok((_, st3)) = number_and_flags(s, st2c) {
                lemma_coordinate_pair(s, st3);
            }
        }
    }
}

pub proof fn lemma_segment_args(s: Seq<u8>, st: PState, cmd: u8, absolute: bool)
    requires
        state_wf(s, st),
    ensures
        segment_args(s, st, cmd, absolute) matches Ok((_, st2)) ==> state_wf(s, st2) && measure(
            s,
            st2,
        ) < measure(s, st),
{
    reveal(segment_args);
    if cmd == 0x4cu8 || cmd == 0x54u8 {
        lemma_coordinate_pair(s, st);
    } else if cmd == 0x48u8 || cmd == 0x56u8 {
        lemma_match(s, st);
    } else if cmd == 0x43u8 {
        lemma_curveto_args(s, st, absolute);
    } else if cmd == 0x53u8 || cmd == 0x51u8 {
        lemma_two_pairs(s, st);
    } else {
        lemma_arc_args(s, st, absolute);
    }
}

pub proof fn lemma_should_break(s: Seq<u8>, st: PState)
    requires
        state_wf(s, st),
    ensures
        state_wf(s, should_break_arg_sequence(s, st).1),
        measure(s, should_break_arg_sequence(s, st).1) <= measure(s, st),
{
    lemma_match(s, st);
}

pub proof fn lemma_arg_sequence(s: Seq<u8>, st: PState, cmd: u8, absolute: bool)
    requires
        state_wf(s, st),
    ensures
        arg_sequence(s, st, cmd, absolute).1 matches Ok(st2) ==> state_wf(s, st2) && measure(
            s,
            st2,
        ) < measure(s, st),
    decreases measure(s, st),
{
    lemma_segment_args(s, st, cmd, absolute);
    if let Ok((seg, st1)) = segment_args(s, st, cmd, absolute) {
        lemma_should_break(s, st1);
        let (brk, st2) = should_break_arg_sequence(s, st1);
        if !brk {
            lemma_arg_sequence(s, st2, cmd, absolute);
        }
    }
}

pub proof fn lemma_moveto(s: Seq<u8>, st: PState)
    requires
        state_wf(s, st),
    ensures
        moveto(s, st).1 matches Ok(st2) ==> state_wf(s, st2) && measure(s, st2) < measure(s, st),
{
    lemma_match(s, st);
    if let Ok((c, st1)) = match_command(s, st) {
        lemma_coordinate_pair(s, st1);
        if let Ok((_, st2)) = coordinate_pair(s, st1) {
            lemma_match(s, st2);
            if let Ok(st3) = match_comma(s, st2) {
                lemma_arg_sequence(s, st3, 0x4cu8, c == 0x4du8);
            } else {
                lemma_arg_sequence(s, st2, 0x4cu8, c == 0x4du8);
            }
        }
    }
}

pub proof fn lemma_drawto_command(s: Seq<u8>, st: PState)
    requires
        state_wf(s, st),
    ensures
        drawto_command(s, st).1 matches Ok((consumed, st2)) ==> state_wf(s, st2) && measure(
            s,
            st2,
        ) <= measure(s, st) && (consumed ==> measure(s, st2) < measure(s, st)),
{
    lemma_advance(s, st);
    if let Some((_, Ok(Token::Command(c)))) = st.2 {
        let st1 = advance(s, st);
        lemma_arg_sequence(s, st1, to_upper(c), c == to_upper(c));
    }
}

pub proof fn lemma_optional_drawto_commands(s: Seq<u8>, st: PState)
    requires
        state_wf(s, st),
    ensures
        optional_drawto_commands(s, st).1 matches Ok(st2) ==> state_wf(s, st2) && measure(s, st2)
            <= measure(s, st),
    decreases measure(s, st),
{
    lemma_drawto_command(s, st);
    let (segs, r) = drawto_command(s, st);
    if let Ok((true, st1)) = r {
        lemma_optional_drawto_commands(s, st1);
    }
}

pub proof fn lemma_group(s: Seq<u8>, st: PState)
    requires
        state_wf(s, st),
    ensures
        moveto_drawto_command_group(s, st).1 matches Ok(st2) ==> state_wf(s, st2) && measure(
            s,
            st2,
        ) < measure(s, st),
{
    lemma_moveto(s, st);
    if let Ok(st1) = moveto(s, st).1 {
        lemma_optional_drawto_commands(s, st1);
    }
}

// ---------------------------------------------------------------------------
// The parser

/// Parses path data into [`PathSegment`]s.
pub struct PathParser<'b> {
    tokens: Lexer<'b>,
    current_pos_and_token: LexItem,
    segments: Vec<PathSegment>,
}

impl<'b> PathParser<'b> {
    /// The bytes of the path data.
    pub closed spec fn input(&self) -> Seq<u8> {
        self.tokens.bytes()
    }

    /// Lexer position, required flags and current token.
    pub closed spec fn state(&self) -> PState {
        (self.tokens.position(), self.tokens.flags(), self.current_pos_and_token)
    }

    /// The segments emitted so far.
    pub closed spec fn segments(&self) -> Seq<PathSegment> {
        self.segments@
    }

    pub closed spec fn wf(&self) -> bool {
        &&& self.tokens.wf()
        &&& state_wf(self.input(), self.state())
    }

    pub fn new(path_str: &'b str) -> (p: PathParser<'b>)
        ensures
            p.wf(),
            p.input() == path_str.spec_bytes(),
            p.state() == initial_state(p.input()),
            p.segments() == Seq::<PathSegment>::empty(),
    {
        let mut lexer = Lexer::new(path_str);
        proof {
            lexer.lemma_wf();
            lemma_advance(lexer.bytes(), (0, 0u8, None));
        }
        let pt = lexer.next();
        PathParser { tokens: lexer, current_pos_and_token: pt, segments: Vec::new() }
    }

    /// The segments emitted so far.
    pub fn into_segments(self) -> (v: Vec<PathSegment>)
        ensures
            v@ == self.segments(),
    {
        self.segments
    }

    fn advance_token(&mut self)
        requires
            old(self).wf(),
        ensures
            final(self).wf(),
            final(self).input() == old(self).input(),
            final(self).segments() == old(self).segments(),
            final(self).state() == advance(old(self).input(), old(self).state()),
    {
        proof {
            lemma_advance(self.input(), self.state());
        }
        self.current_pos_and_token = self.tokens.next();
    }

    fn current_error(&self) -> (e: ParseError)
        requires
            self.wf(),
        ensures
            e == cur_error(self.input(), self.state()),
    {
        match self.current_pos_and_token {
            Some((pos, Ok(t))) => ParseError::new(pos, ErrorKind::UnexpectedToken(t)),
            Some((pos, Err(e))) => ParseError::new(pos, ErrorKind::LexError(e)),
            None => ParseError::new(self.tokens.input_len(), ErrorKind::UnexpectedEof),
        }
    }

    // Our match_* methods all either consume the token we requested
    // and return the unwrapped value, or return an error without
    // advancing the token stream.
    //
    // You can safely use them to probe for a particular kind of token,
    // fail to match it, and try some other type.
    fn match_command(&mut self) -> (r: Result<u8, ParseError>)
        requires
            old(self).wf(),
        ensures
            final(self).wf(),
            final(self).input() == old(self).input(),
            final(self).segments() == old(self).segments(),
            match match_command(old(self).input(), old(self).state()) {
                Ok((c, st)) => r == Ok::<u8, ParseError>(c) && final(self).state() == st,
                Err(e) => r == Err::<u8, ParseError>(e) && final(self).state() == old(self).state(),
            },
    {
        if let Some((_, Ok(Token::Command(c)))) = self.current_pos_and_token {
            self.advance_token();
            Ok(c)
        } else {
            Err(self.current_error())
        }
    }

    fn match_number(&mut self) -> (r: Result<NumberSpan, ParseError>)
        requires
            old(self).wf(),
        ensures
            final(self).wf(),
            final(self).input() == old(self).input(),
            final(self).segments() == old(self).segments(),
            match match_number(old(self).input(), old(self).state()) {
                Ok((n, st)) => r == Ok::<NumberSpan, ParseError>(n) && final(self).state() == st,
                Err(e) => r == Err::<NumberSpan, ParseError>(e) && final(self).state() == old(self).state(),
            },
    {
        if let Some((_, Ok(Token::Number(n)))) = self.current_pos_and_token {
            self.advance_token();
            Ok(n)
        } else {
            Err(self.current_error())
        }
    }

    fn match_comma(&mut self) -> (r: Result<(), ParseError>)
        requires
            old(self).wf(),
        ensures
            final(self).wf(),
            final(self).input() == old(self).input(),
            final(self).segments() == old(self).segments(),
            match match_comma(old(self).input(), old(self).state()) {
                Ok(st) => r is Ok && final(self).state() == st,
                Err(e) => r == Err::<(), ParseError>(e) && final(self).state() == old(self).state(),
            },
    {
        if let Some((_, Ok(Token::Comma))) = self.current_pos_and_token {
            self.advance_token();
            Ok(())
        } else {
            Err(self.current_error())
        }
    }

    fn match_flag(&mut self) -> (r: Result<bool, ParseError>)
        requires
            old(self).wf(),
        ensures
            final(self).wf(),
            final(self).input() == old(self).input(),
            final(self).segments() == old(self).segments(),
            match match_flag(old(self).input(), old(self).state()) {
                Ok((f, st)) => r == Ok::<bool, ParseError>(f) && final(self).state() == st,
                Err(e) => r == Err::<bool, ParseError>(e) && final(self).state() == old(self).state(),
            },
    {
        if let Some((_, Ok(Token::Flag(f)))) = self.current_pos_and_token {
            self.advance_token();
            Ok(f)
        } else {
            Err(self.current_error())
        }
    }

    fn eat_optional_comma(&mut self)
        requires
            old(self).wf(),
        ensures
            final(self).wf(),
            final(self).input() == old(self).input(),
            final(self).segments() == old(self).segments(),
            final(self).state() == eat_optional_comma(old(self).input(), old(self).state()),
    {
        let _ = self.match_comma();
    }

    // Convenience function; like match_number, but eats a leading comma if present.
    fn match_comma_number(&mut self) -> (r: Result<NumberSpan, ParseError>)
        requires
            old(self).wf(),
        ensures
            final(self).wf(),
            final(self).input() == old(self).input(),
            final(self).segments() == old(self).segments(),
            match match_comma_number(old(self).input(), old(self).state()) {
                Ok((n, st)) => r == Ok::<NumberSpan, ParseError>(n) && final(self).state() == st,
                Err(e) => r == Err::<NumberSpan, ParseError>(e),
            },
    {
        self.eat_optional_comma();
        self.match_number()
    }

    fn match_number_and_flags(&mut self) -> (r: Result<(NumberSpan, bool, bool), ParseError>)
        requires
            old(self).wf(),
        ensures
            final(self).wf(),
            final(self).input() == old(self).input(),
            final(self).segments() == old(self).segments(),
            match number_and_flags(old(self).input(), old(self).state()) {
                Ok((v, st)) => r == Ok::<(NumberSpan, bool, bool), ParseError>(v) && final(self).state() == st,
                Err(e) => r == Err::<(NumberSpan, bool, bool), ParseError>(e),
            },
    {
        // We can't just do self.match_number() here, because we have to
        // tell the lexer, if we do find a number, to switch to looking for flags
        // before we advance it to the next token. Otherwise it will treat the flag
        // characters as numbers.
        //
        // So, first we do the guts of match_number...
        let n = if let Some((_, Ok(Token::Number(n)))) = self.current_pos_and_token {
            n
        } else {
            return Err(self.current_error());
        };

        // Then we tell the lexer that we're going to need to find Flag tokens,
        // *then* we can advance the token stream.
        self.tokens.require_flags();
        self.advance_token();

        self.eat_optional_comma();
        let f1 = self.match_flag()?;

        self.eat_optional_comma();
        let f2 = self.match_flag()?;

        Ok((n, f1, f2))
    }

    // peek_* methods are the twins of match_*, but don't consume the token, and so
    // can't return ParseError
    fn peek_command(&self) -> (r: Option<u8>)
        ensures
            match self.state().2 {
                Some((_, Ok(Token::Command(c)))) => r == Some(c),
                _ => r is None,
            },
    {
        match self.current_pos_and_token {
            Some((_, Ok(Token::Command(c)))) => Some(c),
            _ => None,
        }
    }

    fn peek_number(&self) -> (r: Option<NumberSpan>)
        ensures
            r is Some == peek_number(self.state()),
    {
        match self.current_pos_and_token {
            Some((_, Ok(Token::Number(n)))) => Some(n),
            _ => None,
        }
    }

    fn error(&self, kind: ErrorKind) -> (e: ParseError)
        ensures
            e == error_here(self.state(), kind),
    {
        match self.current_pos_and_token {
            Some((pos, _)) => ParseError { position: pos, kind },
            None => ParseError { position: 0, kind },  // FIXME: ???
        }
    }

    fn coordinate_pair(&mut self) -> (r: Result<(NumberSpan, NumberSpan), ParseError>)
        requires
            old(self).wf(),
        ensures
            final(self).wf(),
            final(self).input() == old(self).input(),
            final(self).segments() == old(self).segments(),
            match coordinate_pair(old(self).input(), old(self).state()) {
                Ok((v, st)) => r == Ok::<(NumberSpan, NumberSpan), ParseError>(v) && final(self).state() == st,
                Err(e) => r == Err::<(NumberSpan, NumberSpan), ParseError>(e),
            },
    {
        let x = self.match_number()?;
        let y = self.match_comma_number()?;
        Ok((x, y))
    }

    fn comma_coordinate_pair(&mut self) -> (r: Result<(NumberSpan, NumberSpan), ParseError>)
        requires
            old(self).wf(),
        ensures
            final(self).wf(),
            final(self).input() == old(self).input(),
            final(self).segments() == old(self).segments(),
            match comma_pair(old(self).input(), old(self).state()) {
                Ok((v, st)) => r == Ok::<(NumberSpan, NumberSpan), ParseError>(v) && final(self).state() == st,
                Err(e) => r == Err::<(NumberSpan, NumberSpan), ParseError>(e),
            },
    {
        self.eat_optional_comma();
        self.coordinate_pair()
    }

    fn two_coordinate_pairs(&mut self) -> (r: Result<
        (NumberSpan, NumberSpan, NumberSpan, NumberSpan),
        ParseError,
    >)
        requires
            old(self).wf(),
        ensures
            final(self).wf(),
            final(self).input() == old(self).input(),
            final(self).segments() == old(self).segments(),
            match two_pairs(old(self).input(), old(self).state()) {
                Ok((v, st)) => r == Ok::<(NumberSpan, NumberSpan, NumberSpan, NumberSpan), ParseError>(v)
                    && final(self).state() == st,
                Err(e) => r == Err::<(NumberSpan, NumberSpan, NumberSpan, NumberSpan), ParseError>(e),
            },
    {
        let (x1, y1) = self.coordinate_pair()?;
        let (x2, y2) = self.comma_coordinate_pair()?;
        Ok((x1, y1, x2, y2))
    }

    fn curveto_arguments(&mut self, absolute: bool) -> (r: Result<PathSegment, ParseError>)
        requires
            old(self).wf(),
        ensures
            final(self).wf(),
            final(self).input() == old(self).input(),
            final(self).segments() == old(self).segments(),
            match curveto_args(old(self).input(), old(self).state(), absolute) {
                Ok((seg, st)) => r == Ok::<PathSegment, ParseError>(seg) && final(self).state()
                    == st,
                Err(e) => r == Err::<PathSegment, ParseError>(e),
            },
    {
        let (x2, y2, x3, y3) = self.two_coordinate_pairs()?;
        let (x4, y4) = self.comma_coordinate_pair()?;
        Ok(PathSegment::CurveTo { absolute, x2, y2, x3, y3, x4, y4 })
    }

    fn elliptical_arc_arguments(&mut self, absolute: bool) -> (r: Result<PathSegment, ParseError>)
        requires
            old(self).wf(),
        ensures
            final(self).wf(),
            final(self).input() == old(self).input(),
            final(self).segments() == old(self).segments(),
            match arc_args(old(self).input(), old(self).state(), absolute) {
                Ok((seg, st)) => r == Ok::<PathSegment, ParseError>(seg) && final(self).state()
                    == st,
                Err(e) => r == Err::<PathSegment, ParseError>(e),
            },
    {
        let rx = self.match_number()?;
        let ry = self.match_comma_number()?;

        self.eat_optional_comma();
        let (x_axis_rotation, large_arc, sweep) = self.match_number_and_flags()?;

        let (x, y) = self.comma_coordinate_pair()?;
        Ok(PathSegment::Arc { absolute, rx, ry, x_axis_rotation, large_arc, sweep, x, y })
    }

    /// The arguments of one drawto command.
    fn segment_arguments(&mut self, cmd: u8, absolute: bool) -> (r: Result<PathSegment, ParseError>)
        requires
            old(self).wf(),
        ensures
            final(self).wf(),
            final(self).input() == old(self).input(),
            final(self).segments() == old(self).segments(),
            match segment_args(old(self).input(), old(self).state(), cmd, absolute) {
                Ok((seg, st)) => r == Ok::<PathSegment, ParseError>(seg) && final(self).state()
                    == st,
                Err(e) => r == Err::<PathSegment, ParseError>(e),
            },
    {
        reveal(segment_args);
        if cmd == 0x4cu8 {
            let (x, y) = self.coordinate_pair()?;
            Ok(PathSegment::LineTo { absolute, x, y })
        } else if cmd == 0x48u8 {
            let x = self.match_number()?;
            Ok(PathSegment::HorizontalLineTo { absolute, x })
        } else if cmd == 0x56u8 {
            let y = self.match_number()?;
            Ok(PathSegment::VerticalLineTo { absolute, y })
        } else if cmd == 0x43u8 {
            self.curveto_arguments(absolute)
        } else if cmd == 0x53u8 {
            let (x3, y3, x4, y4) = self.two_coordinate_pairs()?;
            Ok(PathSegment::SmoothCurveTo { absolute, x3, y3, x4, y4 })
        } else if cmd == 0x51u8 {
            let (a, b, c, d) = self.two_coordinate_pairs()?;
            Ok(PathSegment::QuadraticCurveTo { absolute, a, b, c, d })
        } else if cmd == 0x54u8 {
            let (c, d) = self.coordinate_pair()?;
            Ok(PathSegment::SmoothQuadraticCurveTo { absolute, c, d })
        } else {
            self.elliptical_arc_arguments(absolute)
        }
    }

    fn should_break_arg_sequence(&mut self) -> (brk: bool)
        requires
            old(self).wf(),
        ensures
            final(self).wf(),
            final(self).input() == old(self).input(),
            final(self).segments() == old(self).segments(),
            (brk, final(self).state()) == should_break_arg_sequence(
                old(self).input(),
                old(self).state(),
            ),
    {
        if self.match_comma().is_ok() {
            // if there is a comma (indicating we should continue to loop), eat the comma
            // so we're ready at the next start of the loop to process the next token.
            false
        } else {
            // continue to process args in the sequence unless the next token is a comma
            self.peek_number().is_none()
        }
    }

    /// A sequence of argument groups of the command `cmd`, each making one segment.
    fn argument_sequence(&mut self, cmd: u8, absolute: bool) -> (r: Result<(), ParseError>)
        requires
            old(self).wf(),
        ensures
            final(self).wf(),
            final(self).input() == old(self).input(),
            ({
                let (segs, res) = arg_sequence(old(self).input(), old(self).state(), cmd, absolute);
                &&& final(self).segments() == old(self).segments() + segs
                &&& match res {
                    Ok(st) => r is Ok && final(self).state() == st,
                    Err(e) => r == Err::<(), ParseError>(e),
                }
            }),
    {
        let ghost s = self.input();
        let ghost st0 = self.state();
        let ghost segs0 = self.segments();
        loop
            invariant
                self.wf(),
                self.input() == s,
                s == old(self).input(),
                st0 == old(self).state(),
                segs0 == old(self).segments(),
                segs0 + arg_sequence(s, st0, cmd, absolute).0 == self.segments() + arg_sequence(
                    s,
                    self.state(),
                    cmd,
                    absolute,
                ).0,
                arg_sequence(s, st0, cmd, absolute).1 == arg_sequence(
                    s,
                    self.state(),
                    cmd,
                    absolute,
                ).1,
            decreases measure(s, self.state()),
        {
            let ghost st = self.state();
            let ghost segs_before = self.segments();
            proof {
                lemma_segment_args(s, st, cmd, absolute);
            }
            let seg = match self.segment_arguments(cmd, absolute) {
                Ok(seg) => seg,
                Err(e) => {
                    assert(segs_before + seq![] == segs_before);
                    return Err(e);
                },
            };
            self.segments.push(seg);
            let ghost st1 = self.state();
            proof {
                lemma_should_break(s, st1);
            }
            if self.should_break_arg_sequence() {
                assert(segs_before + seq![seg] == self.segments());
                return Ok(());
            }
            assert(segs_before + (seq![seg] + arg_sequence(s, self.state(), cmd, absolute).0)
                == self.segments() + arg_sequence(s, self.state(), cmd, absolute).0);
        }
    }

    fn lineto_argument_sequence(&mut self, absolute: bool) -> (r: Result<(), ParseError>)
        requires
            old(self).wf(),
        ensures
            final(self).wf(),
            final(self).input() == old(self).input(),
            ({
                let (segs, res) = arg_sequence(old(self).input(), old(self).state(), 0x4cu8, absolute);
                &&& final(self).segments() == old(self).segments() + segs
                &&& match res {
                    Ok(st) => r is Ok && final(self).state() == st,
                    Err(e) => r == Err::<(), ParseError>(e),
                }
            }),
    {
        self.argument_sequence(0x4cu8, absolute)
    }

    fn moveto_argument_sequence(&mut self, absolute: bool) -> (r: Result<(), ParseError>)
        requires
            old(self).wf(),
            old(self).state().2 matches Some((_, Ok(Token::Command(c)))) && (c == 0x4du8 || c
                == 0x6du8) && absolute == (c == 0x4du8),
        ensures
            final(self).wf(),
            final(self).input() == old(self).input(),
            ({
                let (segs, res) = moveto(old(self).input(), old(self).state());
                &&& final(self).segments() == old(self).segments() + segs
                &&& match res {
                    Ok(st) => r is Ok && final(self).state() == st,
                    Err(e) => r == Err::<(), ParseError>(e),
                }
            }),
    {
        let ghost s = self.input();
        let ghost segs0 = self.segments();
        self.advance_token();
        let (x, y) = match self.coordinate_pair() {
            Ok(p) => p,
            Err(e) => {
                assert(segs0 + seq![] == segs0);
                return Err(e);
            },
        };
        self.segments.push(PathSegment::MoveTo { absolute, x, y });
        let ghost segs1 = self.segments();

        if self.match_comma().is_ok() || self.peek_number().is_some() {
            let r = self.lineto_argument_sequence(absolute);
            assert(segs1 + arg_sequence(s, self.state(), 0x4cu8, absolute).0 == segs0 + (seq![
                PathSegment::MoveTo { absolute, x, y },
            ] + arg_sequence(s, self.state(), 0x4cu8, absolute).0)) by {
                assert(segs1 == segs0 + seq![PathSegment::MoveTo { absolute, x, y }]);
            }
            r
        } else {
            Ok(())
        }
    }

    fn moveto(&mut self) -> (r: Result<(), ParseError>)
        requires
            old(self).wf(),
        ensures
            final(self).wf(),
            final(self).input() == old(self).input(),
            ({
                let (segs, res) = moveto(old(self).input(), old(self).state());
                &&& final(self).segments() == old(self).segments() + segs
                &&& match res {
                    Ok(st) => r is Ok && final(self).state() == st,
                    Err(e) => r == Err::<(), ParseError>(e),
                }
            }),
    {
        match self.peek_command() {
            Some(c) => {
                if c == 0x4du8 {
                    return self.moveto_argument_sequence(true);
                } else if c == 0x6du8 {
                    return self.moveto_argument_sequence(false);
                }
            },
            None => {},
        }
        let ghost segs0 = self.segments();
        assert(segs0 + seq![] == segs0);
        let c = self.match_command()?;
        Err(self.error(ErrorKind::UnexpectedCommand(c)))
    }

    // FIXME: This should not just fail to match 'M' and 'm', but make sure the
    // command is in the set of drawto command characters.
    fn match_if_drawto_command_with_absolute(&mut self) -> (r: Option<(u8, bool)>)
        requires
            old(self).wf(),
        ensures
            final(self).wf(),
            final(self).input() == old(self).input(),
            final(self).segments() == old(self).segments(),
            match old(self).state().2 {
                Some((_, Ok(Token::Command(c)))) => if c == 0x4du8 || c == 0x6du8 {
                    r is None && final(self).state() == old(self).state()
                } else {
                    r == Some((to_upper(c), c == to_upper(c))) && final(self).state() == advance(
                        old(self).input(),
                        old(self).state(),
                    )
                },
                _ => r is None && final(self).state() == old(self).state(),
            },
    {
        let cmd = self.peek_command();
        let result = match cmd {
            Some(c) => {
                if c == 0x4du8 || c == 0x6du8 {
                    None
                } else {
                    let c_up = byte_to_upper(c);
                    if c == c_up {
                        Some((c_up, true))
                    } else {
                        Some((c_up, false))
                    }
                }
            },
            None => None,
        };
        if result.is_some() {
            let _ = self.match_command();
        }
        result
    }

    fn drawto_command(&mut self) -> (r: Result<bool, ParseError>)
        requires
            old(self).wf(),
        ensures
            final(self).wf(),
            final(self).input() == old(self).input(),
            ({
                let (segs, res) = drawto_command(old(self).input(), old(self).state());
                &&& final(self).segments() == old(self).segments() + segs
                &&& match res {
                    Ok((b, st)) => r == Ok::<bool, ParseError>(b) && final(self).state() == st,
                    Err(e) => r == Err::<bool, ParseError>(e),
                }
            }),
    {
        let ghost segs0 = self.segments();
        match self.match_if_drawto_command_with_absolute() {
            Some((cmd, absolute)) => {
                if cmd == 0x5au8 {
                    self.emit_close_path();
                    Ok(true)
                } else if cmd == 0x4cu8 || cmd == 0x48u8 || cmd == 0x56u8 || cmd == 0x43u8 || cmd
                    == 0x53u8 || cmd == 0x51u8 || cmd == 0x54u8 || cmd == 0x41u8 {
                    self.argument_sequence(cmd, absolute)?;
                    Ok(true)
                } else {
                    assert(segs0 + seq![] == segs0);
                    Ok(false)
                }
            },
            None => {
                assert(segs0 + seq![] == segs0);
                Ok(false)
            },
        }
    }

    fn emit_close_path(&mut self)
        ensures
            final(self).segments() == old(self).segments() + seq![PathSegment::ClosePath],
            final(self).state() == old(self).state(),
            final(self).input() == old(self).input(),
            final(self).wf() == old(self).wf(),
    {
        self.segments.push(PathSegment::ClosePath);
    }

    fn optional_drawto_commands(&mut self) -> (r: Result<bool, ParseError>)
        requires
            old(self).wf(),
        ensures
            final(self).wf(),
            final(self).input() == old(self).input(),
            ({
                let (segs, res) = optional_drawto_commands(old(self).input(), old(self).state());
                &&& final(self).segments() == old(self).segments() + segs
                &&& match res {
                    Ok(st) => r == Ok::<bool, ParseError>(false) && final(self).state() == st,
                    Err(e) => r == Err::<bool, ParseError>(e),
                }
            }),
    {
        let ghost s = self.input();
        let ghost st0 = self.state();
        let ghost segs0 = self.segments();
        loop
            invariant
                self.wf(),
                self.input() == s,
                s == old(self).input(),
                st0 == old(self).state(),
                segs0 == old(self).segments(),
                segs0 + optional_drawto_commands(s, st0).0 == self.segments()
                    + optional_drawto_commands(s, self.state()).0,
                optional_drawto_commands(s, st0).1 == optional_drawto_commands(
                    s,
                    self.state(),
                ).1,
            decreases measure(s, self.state()),
        {
            let ghost st = self.state();
            let ghost segs_before = self.segments();
            proof {
                lemma_drawto_command(s, st);
            }
            let more = self.drawto_command()?;
            if !more {
                assert(segs_before + drawto_command(s, st).0 == self.segments());
                return Ok(false);
            }
            assert(segs_before + (drawto_command(s, st).0 + optional_drawto_commands(
                s,
                self.state(),
            ).0) == self.segments() + optional_drawto_commands(s, self.state()).0);
        }
    }

    fn moveto_drawto_command_group(&mut self) -> (r: Result<(), ParseError>)
        requires
            old(self).wf(),
        ensures
            final(self).wf(),
            final(self).input() == old(self).input(),
            ({
                let (segs, res) = moveto_drawto_command_group(old(self).input(), old(self).state());
                &&& final(self).segments() == old(self).segments() + segs
                &&& match res {
                    Ok(st) => r is Ok && final(self).state() == st,
                    Err(e) => r == Err::<(), ParseError>(e),
                }
            }),
    {
        let ghost s = self.input();
        let ghost segs0 = self.segments();
        self.moveto()?;
        let ghost segs1 = self.segments();
        let r = self.optional_drawto_commands();
        assert(self.segments() == segs0 + (moveto(s, old(self).state()).0
            + optional_drawto_commands(s, moveto(s, old(self).state()).1->Ok_0).0));
        match r {
            Ok(_) => Ok(()),
            Err(e) => Err(e),
        }
    }

    fn moveto_drawto_command_groups(&mut self) -> (r: Result<(), ParseError>)
        requires
            old(self).wf(),
        ensures
            final(self).wf(),
            final(self).input() == old(self).input(),
            ({
                let (segs, res) = moveto_drawto_command_groups(old(self).input(), old(self).state());
                &&& final(self).segments() == old(self).segments() + segs
                &&& r == res
            }),
    {
        let ghost s = self.input();
        let ghost st0 = self.state();
        let ghost segs0 = self.segments();
        loop
            invariant
                self.wf(),
                self.input() == s,
                s == old(self).input(),
                st0 == old(self).state(),
                segs0 == old(self).segments(),
                segs0 + moveto_drawto_command_groups(s, st0).0 == self.segments()
                    + moveto_drawto_command_groups(s, self.state()).0,
                moveto_drawto_command_groups(s, st0).1 == moveto_drawto_command_groups(
                    s,
                    self.state(),
                ).1,
            decreases measure(s, self.state()),
        {
            let ghost st = self.state();
            let ghost segs_before = self.segments();
            proof {
                lemma_group(s, st);
            }
            self.moveto_drawto_command_group()?;

            if self.current_pos_and_token.is_none() {
                assert(segs_before + moveto_drawto_command_group(s, st).0 == self.segments());
                return Ok(());
            }
            assert(segs_before + (moveto_drawto_command_group(s, st).0
                + moveto_drawto_command_groups(s, self.state()).0) == self.segments()
                + moveto_drawto_command_groups(s, self.state()).0);
        }
    }

    /// This is the entry point for parsing a given blob of path data.
    /// All the parsing just uses various match_* methods to consume tokens
    /// and retrieve the values.
    pub fn parse(&mut self) -> (r: Result<(), ParseError>)
        requires
            old(self).wf(),
            old(self).state() == initial_state(old(self).input()),
        ensures
            final(self).wf(),
            final(self).input() == old(self).input(),
            final(self).segments() == old(self).segments() + parse_path_spec(old(self).input()).0,
            r == parse_path_spec(old(self).input()).1,
    {
        if self.current_pos_and_token.is_none() {
            assert(self.segments() + seq![] == self.segments());
            return Ok(());
        }

        self.moveto_drawto_command_groups()
    }
}

/// Parses path data: the segments it describes, and the error that stopped the parser,
/// if any.  The segments that come before an error are returned too.
pub fn parse_path(path_str: &str) -> (r: (Vec<PathSegment>, Result<(), ParseError>))
    ensures
        r.0@ == parse_path_spec(path_str.spec_bytes()).0,
        r.1 == parse_path_spec(path_str.spec_bytes()).1,
{
    let mut parser = PathParser::new(path_str);
    let res = parser.parse();
    assert(Seq::<PathSegment>::empty() + parse_path_spec(path_str.spec_bytes()).0 == parse_path_spec(path_str.spec_bytes()).0);
    (parser.into_segments(), res)
}

// ---------------------------------------------------------------------------
// Laws

proof fn lemma_moveto_first(s: Seq<u8>, st: PState)
    ensures
        moveto(s, st).0.len() > 0 ==> moveto(s, st).0[0] is MoveTo,
        moveto(s, st).0.len() == 0 ==> moveto(s, st).1 is Err,
{
}

proof fn lemma_groups_first(s: Seq<u8>, st: PState)
    ensures
        moveto_drawto_command_groups(s, st).0.len() > 0 ==> moveto_drawto_command_groups(
            s,
            st,
        ).0[0] is MoveTo,
    decreases measure(s, st),
{
    if state_wf(s, st) {
        lemma_moveto_first(s, st);
        let (segs, r) = moveto_drawto_command_group(s, st);
        if let Ok(st1) = r {
            if !(st1.2 is None) {
                lemma_group(s, st);
                lemma_groups_first(s, st1);
            }
        }
    }
}

/// Path data always starts with a moveto: when the parser emits any segment, the first
/// one is a `MoveTo`.
pub proof fn lemma_first_segment_is_moveto(s: Seq<u8>)
    ensures
        parse_path_spec(s).0.len() > 0 ==> parse_path_spec(s).0[0] is MoveTo,
{
    lemma_groups_first(s, initial_state(s));
}

/// Path data made of whitespace only (or nothing) describes no segments and is no error.
pub proof fn lemma_blank_path(s: Seq<u8>)
    requires
        s.len() <= usize::MAX,
        forall|i: int| 0 <= i < s.len() ==> is_ws(#[trigger] s[i]),
    ensures
        parse_path_spec(s).0.len() == 0,
        parse_path_spec(s).1 is Ok,
{
    lemma_blank_skip(s, 0);
    lemma_lex_next(s, 0, 0u8);
}

proof fn lemma_blank_skip(s: Seq<u8>, i: int)
    requires
        0 <= i <= s.len(),
        forall|k: int| 0 <= k < s.len() ==> is_ws(#[trigger] s[k]),
    ensures
        skip_ws(s, i) == s.len(),
    decreases s.len() - i,
{
    if i < s.len() {
        lemma_blank_skip(s, i + 1);
    }
}


// ---------------------------------------------------------------------------
// Every number of every segment is a float literal

/// `n` is the range of a float literal in `s`.
pub open spec fn span_ok(s: Seq<u8>, n: NumberSpan) -> bool {
    &&& n.start <= n.end <= s.len()
    &&& valid_float_literal(s.subrange(n.start as int, n.end as int))
}

/// The number that the current token of `st` holds, if any, is a float literal of `s`.
pub open spec fn state_ok(s: Seq<u8>, st: PState) -> bool {
    st.2 matches Some((_, Ok(Token::Number(n)))) ==> span_ok(s, n)
}

/// Every number of `seg` is a float literal of `s`.
pub open spec fn segment_ok(s: Seq<u8>, seg: PathSegment) -> bool {
    match seg {
        PathSegment::MoveTo { x, y, .. } => span_ok(s, x) && span_ok(s, y),
        PathSegment::LineTo { x, y, .. } => span_ok(s, x) && span_ok(s, y),
        PathSegment::HorizontalLineTo { x, .. } => span_ok(s, x),
        PathSegment::VerticalLineTo { y, .. } => span_ok(s, y),
        PathSegment::CurveTo { x2, y2, x3, y3, x4, y4, .. } => span_ok(s, x2) && span_ok(s, y2)
            && span_ok(s, x3) && span_ok(s, y3) && span_ok(s, x4) && span_ok(s, y4),
        PathSegment::SmoothCurveTo { x3, y3, x4, y4, .. } => span_ok(s, x3) && span_ok(s, y3)
            && span_ok(s, x4) && span_ok(s, y4),
        PathSegment::QuadraticCurveTo { a, b, c, d, .. } => span_ok(s, a) && span_ok(s, b)
            && span_ok(s, c) && span_ok(s, d),
        PathSegment::SmoothQuadraticCurveTo { c, d, .. } => span_ok(s, c) && span_ok(s, d),
        PathSegment::Arc { rx, ry, x_axis_rotation, x, y, .. } => span_ok(s, rx) && span_ok(s, ry)
            && span_ok(s, x_axis_rotation) && span_ok(s, x) && span_ok(s, y),
        PathSegment::ClosePath => true,
    }
}

pub open spec fn segments_ok(s: Seq<u8>, segs: Seq<PathSegment>) -> bool {
    forall|i: int| 0 <= i < segs.len() ==> segment_ok(s, #[trigger] segs[i])
}

proof fn lemma_advance_ok(s: Seq<u8>, st: PState)
    requires
        state_wf(s, st),
    ensures
        state_ok(s, advance(s, st)),
{
    lemma_lex_next(s, st.0, st.1);
    let q = skip_ws(s, st.0);
    crate::path_lexer::lemma_skip_ws(s, st.0);
    if 0 <= q < s.len() {
        let c = s[q];
        if !(c == 0x2cu8) && !is_alpha(c) && !(st.1 > 0 && is_digit(c)) && (is_digit(c) || c
            == 0x2du8 || c == 0x2bu8 || c == 0x2eu8) {
            lemma_number_token(s, q);
            if number_token(s, q).0 is Ok {
                lemma_number_token_valid(s, q);
            }
        }
    }
}

proof fn lemma_match_ok(s: Seq<u8>, st: PState)
    requires
        state_wf(s, st),
        state_ok(s, st),
    ensures
        match_command(s, st) matches Ok((_, st2)) ==> state_ok(s, st2),
        match_number(s, st) matches Ok((n, st2)) ==> state_ok(s, st2) && span_ok(s, n),
        match_comma(s, st) matches Ok(st2) ==> state_ok(s, st2),
        match_flag(s, st) matches Ok((_, st2)) ==> state_ok(s, st2),
        state_ok(s, eat_optional_comma(s, st)),
        state_ok(s, should_break_arg_sequence(s, st).1),
{
    lemma_advance_ok(s, st);
}

proof fn lemma_pair_ok(s: Seq<u8>, st: PState)
    requires
        state_wf(s, st),
        state_ok(s, st),
    ensures
        coordinate_pair(s, st) matches Ok(((x, y), st2)) ==> state_ok(s, st2) && span_ok(s, x)
            && span_ok(s, y),
        comma_pair(s, st) matches Ok(((x, y), st2)) ==> state_ok(s, st2) && span_ok(s, x)
            && span_ok(s, y),
        match_comma_number(s, st) matches Ok((n, st2)) ==> state_ok(s, st2) && span_ok(s, n),
{
    lemma_match(s, st);
    lemma_match_ok(s, st);
    let stc = eat_optional_comma(s, st);
    lemma_match(s, stc);
    lemma_match_ok(s, stc);
    if let Ok((_, st1)) = match_number(s, st) {
        lemma_match(s, st1);
        lemma_match_ok(s, st1);
        lemma_match(s, eat_optional_comma(s, st1));
        lemma_match_ok(s, eat_optional_comma(s, st1));
    }
    if let Ok((_, st1)) = match_number(s, stc) {
        lemma_match(s, st1);
        lemma_match_ok(s, st1);
        lemma_match(s, eat_optional_comma(s, st1));
        lemma_match_ok(s, eat_optional_comma(s, st1));
    }
}

proof fn lemma_two_pairs_ok(s: Seq<u8>, st: PState)
    requires
        state_wf(s, st),
        state_ok(s, st),
    ensures
        two_pairs(s, st) matches Ok(((a, b, c, d), st2)) ==> state_ok(s, st2) && span_ok(s, a)
            && span_ok(s, b) && span_ok(s, c) && span_ok(s, d),
{
    lemma_pair_ok(s, st);
    lemma_coordinate_pair(s, st);
    if let Ok((_, st1)) = coordinate_pair(s, st) {
        lemma_pair_ok(s, st1);
    }
}

proof fn lemma_number_and_flags_ok(s: Seq<u8>, st: PState)
    requires
        state_wf(s, st),
        state_ok(s, st),
    ensures
        number_and_flags(s, st) matches Ok(((n, _, _), st2)) ==> state_ok(s, st2) && span_ok(s, n),
{
    if let Some((_, Ok(Token::Number(n)))) = st.2 {
        let stf = (st.0, 2u8, st.2);
        lemma_advance(s, stf);
        lemma_advance_ok(s, stf);
        let st1 = advance(s, stf);
        lemma_match(s, st1);
        lemma_match_ok(s, st1);
        let st1c = eat_optional_comma(s, st1);
        lemma_match(s, st1c);
        lemma_match_ok(s, st1c);
        if let Ok((f1, st2)) = match_flag(s, st1c) {
            lemma_match(s, st2);
            lemma_match_ok(s, st2);
            lemma_match(s, eat_optional_comma(s, st2));
            lemma_match_ok(s, eat_optional_comma(s, st2));
        }
    }
}

#[verifier::spinoff_prover]
#[verifier::rlimit(40)]
proof fn lemma_arc_args_ok(s: Seq<u8>, st: PState, absolute: bool)
    requires
        state_wf(s, st),
        state_ok(s, st),
    ensures
        arc_args(s, st, absolute) matches Ok((seg, st2)) ==> state_ok(s, st2) && segment_ok(s, seg),
{
    lemma_match(s, st);
    lemma_match_ok(s, st);
    if let Ok((_, st1)) = match_number(s, st) {
        lemma_coordinate_pair(s, st1);
        lemma_pair_ok(s, st1);
        if let Ok((_, st2)) = match_comma_number(s, st1) {
            lemma_match(s, st2);
            lemma_match_ok(s, st2);
            let st2c = eat_optional_comma(s, st2);
            lemma_number_and_flags(s, st2c);
            lemma_number_and_flags_ok(s, st2c);
            if let Ok((_, st3)) = number_and_flags(s, st2c) {
                lemma_pair_ok(s, st3);
            }
        }
    }
}

proof fn lemma_curveto_args_ok(s: Seq<u8>, st: PState, absolute: bool)
    requires
        state_wf(s, st),
        state_ok(s, st),
    ensures
        curveto_args(s, st, absolute) matches Ok((seg, st2)) ==> state_ok(s, st2) && segment_ok(
            s,
            seg,
        ),
{
    lemma_two_pairs_ok(s, st);
    lemma_two_pairs(s, st);
    if let Ok((_, st1)) = two_pairs(s, st) {
        lemma_pair_ok(s, st1);
    }
}

#[verifier::spinoff_prover]
#[verifier::rlimit(40)]
proof fn lemma_segment_args_ok(s: Seq<u8>, st: PState, cmd: u8, absolute: bool)
    requires
        state_wf(s, st),
        state_ok(s, st),
    ensures
        segment_args(s, st, cmd, absolute) matches Ok((seg, st2)) ==> state_ok(s, st2)
            && segment_ok(s, seg),
{
    reveal(segment_args);
    if cmd == 0x4cu8 || cmd == 0x54u8 {
        lemma_pair_ok(s, st);
    } else if cmd == 0x48u8 || cmd == 0x56u8 {
        lemma_match_ok(s, st);
    } else if cmd == 0x43u8 {
        lemma_curveto_args_ok(s, st, absolute);
    } else if cmd == 0x53u8 || cmd == 0x51u8 {
        lemma_two_pairs_ok(s, st);
    } else {
        lemma_arc_args_ok(s, st, absolute);
    }
}

proof fn lemma_arg_sequence_ok(s: Seq<u8>, st: PState, cmd: u8, absolute: bool)
    requires
        state_wf(s, st),
        state_ok(s, st),
    ensures
        segments_ok(s, arg_sequence(s, st, cmd, absolute).0),
        arg_sequence(s, st, cmd, absolute).1 matches Ok(st2) ==> state_ok(s, st2),
    decreases measure(s, st),
{
    lemma_segment_args(s, st, cmd, absolute);
    lemma_segment_args_ok(s, st, cmd, absolute);
    if let Ok((seg, st1)) = segment_args(s, st, cmd, absolute) {
        lemma_should_break(s, st1);
        lemma_match_ok(s, st1);
        let (brk, st2) = should_break_arg_sequence(s, st1);
        if !brk {
            lemma_arg_sequence_ok(s, st2, cmd, absolute);
            let rest = arg_sequence(s, st2, cmd, absolute).0;
            assert forall|i: int| 0 <= i < (seq![seg] + rest).len() implies segment_ok(
                s,
                #[trigger] (seq![seg] + rest)[i],
            ) by {
                if i > 0 {
                    assert((seq![seg] + rest)[i] == rest[i - 1]);
                }
            }
        }
    }
}

#[verifier::spinoff_prover]
#[verifier::rlimit(40)]
proof fn lemma_moveto_ok(s: Seq<u8>, st: PState)
    requires
        state_wf(s, st),
        state_ok(s, st),
    ensures
        segments_ok(s, moveto(s, st).0),
        moveto(s, st).1 matches Ok(st2) ==> state_ok(s, st2),
{
    lemma_match(s, st);
    lemma_match_ok(s, st);
    if let Ok((c, st1)) = match_command(s, st) {
        lemma_coordinate_pair(s, st1);
        lemma_pair_ok(s, st1);
        if let Ok(((x, y), st2)) = coordinate_pair(s, st1) {
            lemma_match(s, st2);
            lemma_match_ok(s, st2);
            let seg = PathSegment::MoveTo { absolute: c == 0x4du8, x, y };
            let st3 = if match_comma(s, st2) is Ok {
                match_comma(s, st2).unwrap()
            } else {
                st2
            };
            lemma_arg_sequence_ok(s, st3, 0x4cu8, c == 0x4du8);
            let rest = arg_sequence(s, st3, 0x4cu8, c == 0x4du8).0;
            assert forall|i: int| 0 <= i < (seq![seg] + rest).len() implies segment_ok(
                s,
                #[trigger] (seq![seg] + rest)[i],
            ) by {
                if i > 0 {
                    assert((seq![seg] + rest)[i] == rest[i - 1]);
                }
            }
        }
    }
}

proof fn lemma_drawto_command_ok(s: Seq<u8>, st: PState)
    requires
        state_wf(s, st),
        state_ok(s, st),
    ensures
        segments_ok(s, drawto_command(s, st).0),
        drawto_command(s, st).1 matches Ok((_, st2)) ==> state_ok(s, st2),
{
    lemma_advance(s, st);
    lemma_advance_ok(s, st);
    if let Some((_, Ok(Token::Command(c)))) = st.2 {
        let st1 = advance(s, st);
        lemma_arg_sequence_ok(s, st1, to_upper(c), c == to_upper(c));
    }
}

proof fn lemma_optional_drawto_commands_ok(s: Seq<u8>, st: PState)
    requires
        state_wf(s, st),
        state_ok(s, st),
    ensures
        segments_ok(s, optional_drawto_commands(s, st).0),
        optional_drawto_commands(s, st).1 matches Ok(st2) ==> state_ok(s, st2),
    decreases measure(s, st),
{
    lemma_drawto_command(s, st);
    lemma_drawto_command_ok(s, st);
    let (segs, r) = drawto_command(s, st);
    if let Ok((true, st1)) = r {
        lemma_optional_drawto_commands_ok(s, st1);
        let rest = optional_drawto_commands(s, st1).0;
        assert forall|i: int| 0 <= i < (segs + rest).len() implies segment_ok(
            s,
            #[trigger] (segs + rest)[i],
        ) by {
            if i >= segs.len() {
                assert((segs + rest)[i] == rest[i - segs.len()]);
            }
        }
    }
}

#[verifier::spinoff_prover]
#[verifier::rlimit(40)]
proof fn lemma_groups_ok(s: Seq<u8>, st: PState)
    requires
        state_ok(s, st),
    ensures
        segments_ok(s, moveto_drawto_command_groups(s, st).0),
    decreases measure(s, st),
{
    if state_wf(s, st) {
        lemma_moveto(s, st);
        lemma_moveto_ok(s, st);
        let (segs, r) = moveto(s, st);
        if let Ok(st1) = r {
            lemma_optional_drawto_commands(s, st1);
            lemma_optional_drawto_commands_ok(s, st1);
            let (segs2, r2) = optional_drawto_commands(s, st1);
            assert forall|i: int| 0 <= i < (segs + segs2).len() implies segment_ok(
                s,
                #[trigger] (segs + segs2)[i],
            ) by {
                if i >= segs.len() {
                    assert((segs + segs2)[i] == segs2[i - segs.len()]);
                }
            }
            if let Ok(st2) = r2 {
                if !(st2.2 is None) {
                    lemma_group(s, st);
                    lemma_groups_ok(s, st2);
                    let all = segs + segs2;
                    let rest = moveto_drawto_command_groups(s, st2).0;
                    assert forall|i: int| 0 <= i < (all + rest).len() implies segment_ok(
                        s,
                        #[trigger] (all + rest)[i],
                    ) by {
                        if i >= all.len() {
                            assert((all + rest)[i] == rest[i - all.len()]);
                        } else {
                            assert((all + rest)[i] == all[i]);
                        }
                    }
                }
            }
        }
    }
}

/// Every number of every segment that the parser emits is a decimal float literal of
/// the path data, so turning it into a binary floating-point value cannot fail.
pub proof fn lemma_segment_numbers_are_float_literals(s: Seq<u8>)
    requires
        s.len() <= usize::MAX,
    ensures
        segments_ok(s, parse_path_spec(s).0),
{
    let st0 = (0int, 0u8, None::<(usize, Result<Token, LexError>)>);
    lemma_advance_ok(s, st0);
    if !(initial_state(s).2 is None) {
        lemma_groups_ok(s, initial_state(s));
    }
}

} // verus!
