//! Path data parsing, checked against the absolute drawing commands that the parsed
//! segments describe.

use librsvg::path_lexer::{LexError, Token as LexToken};
use librsvg::path_parser::{parse_path, ErrorKind as ParserErrorKind, PathSegment};

/// A token, with numbers as values.
#[derive(Debug, PartialEq, Clone, Copy)]
enum Token {
    Number(f64),
    Flag(bool),
    Command(u8),
    Comma,
}

use self::Token::{Comma, Command, Number};

#[derive(Debug, PartialEq)]
enum ErrorKind {
    UnexpectedToken(Token),
    UnexpectedCommand(u8),
    UnexpectedEof,
    LexError(LexError),
}

#[derive(Debug, PartialEq)]
struct ParseError {
    position: usize,
    kind: ErrorKind,
}

#[derive(Debug, PartialEq, Clone, Copy)]
enum PathCommand {
    MoveTo(f64, f64),
    LineTo(f64, f64),
    CurveTo((f64, f64), (f64, f64), (f64, f64)),
    Arc {
        r: (f64, f64),
        x_axis_rotation: f64,
        large_arc: bool,
        sweep: bool,
        from: (f64, f64),
        to: (f64, f64),
    },
    ClosePath,
}

fn number(s: &str, start: usize, end: usize) -> f64 {
    s[start..end].parse::<f64>().unwrap()
}

fn token_value(s: &str, t: LexToken) -> Token {
    match t {
        LexToken::Number(n) => Number(number(s, n.start, n.end)),
        LexToken::Flag(f) => Token::Flag(f),
        LexToken::Command(c) => Command(c),
        LexToken::Comma => Comma,
    }
}

/// The absolute commands that the segments of `s` describe, as a path builder gets
/// them: relative coordinates are added to the current point, smooth curves reflect
/// the previous control point, and quadratic curves are raised to cubic ones.
fn to_commands(s: &str, segments: &[PathSegment]) -> Vec<PathCommand> {
    let mut out = Vec::new();
    let (mut cx, mut cy) = (0.0f64, 0.0f64);
    let (mut crx, mut cry) = (0.0f64, 0.0f64);
    let (mut qrx, mut qry) = (0.0f64, 0.0f64);
    let (mut sx, mut sy) = (0.0f64, 0.0f64);
    let n = |sp: librsvg::path_lexer::NumberSpan| number(s, sp.start, sp.end);
    for seg in segments {
        match *seg {
            PathSegment::MoveTo { absolute, x, y } => {
                let (mut x, mut y) = (n(x), n(y));
                if !absolute {
                    x += cx;
                    y += cy;
                }
                cx = x; cy = y; crx = x; cry = y; qrx = x; qry = y; sx = x; sy = y;
                out.push(PathCommand::MoveTo(x, y));
            }
            PathSegment::LineTo { absolute, x, y } => {
                let (mut x, mut y) = (n(x), n(y));
                if !absolute {
                    x += cx;
                    y += cy;
                }
                cx = x; cy = y; crx = x; cry = y; qrx = x; qry = y;
                out.push(PathCommand::LineTo(x, y));
            }
            PathSegment::HorizontalLineTo { absolute, x } => {
                let mut x = n(x);
                if !absolute {
                    x += cx;
                }
                let y = cy;
                cx = x; cy = y; crx = x; cry = y; qrx = x; qry = y;
                out.push(PathCommand::LineTo(x, y));
            }
            PathSegment::VerticalLineTo { absolute, y } => {
                let mut y = n(y);
                if !absolute {
                    y += cy;
                }
                let x = cx;
                cx = x; cy = y; crx = x; cry = y; qrx = x; qry = y;
                out.push(PathCommand::LineTo(x, y));
            }
            PathSegment::CurveTo { absolute, x2, y2, x3, y3, x4, y4 } => {
                let (mut x2, mut y2, mut x3, mut y3, mut x4, mut y4) =
                    (n(x2), n(y2), n(x3), n(y3), n(x4), n(y4));
                if !absolute {
                    x2 += cx; y2 += cy; x3 += cx; y3 += cy; x4 += cx; y4 += cy;
                }
                crx = x3; cry = y3; cx = x4; cy = y4; qrx = cx; qry = cy;
                out.push(PathCommand::CurveTo((x2, y2), (x3, y3), (x4, y4)));
            }
            PathSegment::SmoothCurveTo { absolute, x3, y3, x4, y4 } => {
                let (mut x3, mut y3, mut x4, mut y4) = (n(x3), n(y3), n(x4), n(y4));
                if !absolute {
                    x3 += cx; y3 += cy; x4 += cx; y4 += cy;
                }
                let (x2, y2) = (cx + cx - crx, cy + cy - cry);
                crx = x3; cry = y3; cx = x4; cy = y4; qrx = cx; qry = cy;
                out.push(PathCommand::CurveTo((x2, y2), (x3, y3), (x4, y4)));
            }
            PathSegment::QuadraticCurveTo { absolute, a, b, c, d } => {
                let (mut a, mut b, mut c, mut d) = (n(a), n(b), n(c), n(d));
                if !absolute {
                    a += cx; b += cy; c += cx; d += cy;
                }
                let x2 = (cx + 2.0 * a) / 3.0;
                let y2 = (cy + 2.0 * b) / 3.0;
                let x3 = (c + 2.0 * a) / 3.0;
                let y3 = (d + 2.0 * b) / 3.0;
                qrx = a; qry = b; cx = c; cy = d; crx = cx; cry = cy;
                out.push(PathCommand::CurveTo((x2, y2), (x3, y3), (c, d)));
            }
            PathSegment::SmoothQuadraticCurveTo { absolute, c, d } => {
                let (mut c, mut d) = (n(c), n(d));
                if !absolute {
                    c += cx; d += cy;
                }
                let (a, b) = (cx + cx - qrx, cy + cy - qry);
                let x2 = (cx + 2.0 * a) / 3.0;
                let y2 = (cy + 2.0 * b) / 3.0;
                let x3 = (c + 2.0 * a) / 3.0;
                let y3 = (d + 2.0 * b) / 3.0;
                qrx = a; qry = b; cx = c; cy = d; crx = cx; cry = cy;
                out.push(PathCommand::CurveTo((x2, y2), (x3, y3), (c, d)));
            }
            PathSegment::Arc { absolute, rx, ry, x_axis_rotation, large_arc, sweep, x, y } => {
                let (rx, ry, rot) = (n(rx).abs(), n(ry).abs(), n(x_axis_rotation));
                let (mut x, mut y) = (n(x), n(y));
                if !absolute {
                    x += cx; y += cy;
                }
                let from = (cx, cy);
                cx = x; cy = y; crx = x; cry = y; qrx = x; qry = y;
                out.push(PathCommand::Arc {
                    r: (rx, ry),
                    x_axis_rotation: rot,
                    large_arc,
                    sweep,
                    from,
                    to: (x, y),
                });
            }
            PathSegment::ClosePath => {
                cx = sx; cy = sy; crx = sx; cry = sy; qrx = sx; qry = sy;
                out.push(PathCommand::ClosePath);
            }
        }
    }
    out
}

fn find_error_pos(s: &str) -> Option<usize> {
    s.find('^')
}

fn make_parse_result(error_pos_str: &str, error_kind: Option<ErrorKind>) -> Result<(), ParseError> {
    if let Some(pos) = find_error_pos(error_pos_str) {
        Err(ParseError { position: pos, kind: error_kind.unwrap() })
    } else {
        assert!(error_kind.is_none());
        Ok(())
    }
}

fn test_parser(
    path_str: &str,
    error_pos_str: &str,
    expected_commands: &[PathCommand],
    expected_error_kind: Option<ErrorKind>,
) {
    let expected_result = make_parse_result(error_pos_str, expected_error_kind);

    let (segments, result) = parse_path(path_str);
    let commands = to_commands(path_str, &segments);
    let result = result.map_err(|e| ParseError {
        position: e.position,
        kind: match e.kind {
            ParserErrorKind::UnexpectedToken(t) => ErrorKind::UnexpectedToken(token_value(path_str, t)),
            ParserErrorKind::UnexpectedCommand(c) => ErrorKind::UnexpectedCommand(c),
            ParserErrorKind::UnexpectedEof => ErrorKind::UnexpectedEof,
            ParserErrorKind::LexError(l) => ErrorKind::LexError(l),
        },
    });

    assert_eq!(expected_commands, commands.as_slice());
    assert_eq!(expected_result, result);
}

fn moveto(x: f64, y: f64) -> PathCommand {
    PathCommand::MoveTo(x, y)
}

fn lineto(x: f64, y: f64) -> PathCommand {
    PathCommand::LineTo(x, y)
}

fn curveto(x2: f64, y2: f64, x3: f64, y3: f64, x4: f64, y4: f64) -> PathCommand {
    PathCommand::CurveTo((x2, y2), (x3, y3), (x4, y4))
}

#[allow(clippy::too_many_arguments)]
fn arc(x2: f64, y2: f64, xr: f64, large_arc: bool, sweep: bool, x3: f64, y3: f64, x4: f64, y4: f64) -> PathCommand {
    PathCommand::Arc {
        r: (x2, y2),
        x_axis_rotation: xr,
        large_arc,
        sweep,
        from: (x3, y3),
        to: (x4, y4),
    }
}

fn closepath() -> PathCommand {
    PathCommand::ClosePath
}

#[test]
fn handles_empty_data() {
    test_parser(
        "",
        "",
        &Vec::<PathCommand>::new(),
        None,
    );
}

#[test]
fn handles_numbers() {
    test_parser(
        "M 10 20",
        "",
        &vec![moveto(10.0, 20.0)],
        None,
    );

    test_parser(
        "M -10 -20",
        "",
        &vec![moveto(-10.0, -20.0)],
        None,
    );

    test_parser(
        "M .10 0.20",
        "",
        &vec![moveto(0.10, 0.20)],
        None,
    );

    test_parser(
        "M -.10 -0.20",
        "",
        &vec![moveto(-0.10, -0.20)],
        None,
    );

    test_parser(
        "M-.10-0.20",
        "",
        &vec![moveto(-0.10, -0.20)],
        None,
    );

    test_parser(
        "M10.5.50",
        "",
        &vec![moveto(10.5, 0.50)],
        None,
    );

    test_parser(
        "M.10.20",
        "",
        &vec![moveto(0.10, 0.20)],
        None,
    );

    test_parser(
        "M .10E1 .20e-4",
        "",
        &vec![moveto(1.0, 0.000020)],
        None,
    );

    test_parser(
        "M-.10E1-.20",
        "",
        &vec![moveto(-1.0, -0.20)],
        None,
    );

    test_parser(
        "M10.10E2 -0.20e3",
        "",
        &vec![moveto(1010.0, -200.0)],
        None,
    );

    test_parser(
        "M-10.10E2-0.20e-3",
        "",
        &vec![moveto(-1010.0, -0.00020)],
        None,
    );

    test_parser(
        "M1e2.5", // a decimal after exponent start the next number
        "",
        &vec![moveto(100.0, 0.5)],
        None,
    );

    test_parser(
        "M1e-2.5", // but we are allowed a sign after exponent
        "",
        &vec![moveto(0.01, 0.5)],
        None,
    );

    test_parser(
        "M1e+2.5", // but we are allowed a sign after exponent
        "",
        &vec![moveto(100.0, 0.5)],
        None,
    );
}

#[test]
fn detects_bogus_numbers() {
    test_parser(
        "M+",
        " ^",
        &vec![],
        Some(ErrorKind::LexError(LexError::UnexpectedEof)),
    );

    test_parser(
        "M-",
        " ^",
        &vec![],
        Some(ErrorKind::LexError(LexError::UnexpectedEof)),
    );

    test_parser(
        "M+x",
        " ^",
        &vec![],
        Some(ErrorKind::LexError(LexError::UnexpectedByte(b'x'))),
    );

    test_parser(
        "M10e",
        " ^",
        &vec![],
        Some(ErrorKind::LexError(LexError::ParseFloatError)),
    );

    test_parser(
        "M10ex",
        " ^",
        &vec![],
        Some(ErrorKind::LexError(LexError::ParseFloatError)),
    );

    test_parser(
        "M10e-",
        " ^",
        &vec![],
        Some(ErrorKind::LexError(LexError::ParseFloatError)),
    );

    test_parser(
        "M10e+x",
        " ^",
        &vec![],
        Some(ErrorKind::LexError(LexError::ParseFloatError)),
    );
}

#[test]
fn handles_numbers_with_comma() {
    test_parser(
        "M 10, 20",
        "",
        &vec![moveto(10.0, 20.0)],
        None,
    );

    test_parser(
        "M -10,-20",
        "",
        &vec![moveto(-10.0, -20.0)],
        None,
    );

    test_parser(
        "M.10    ,    0.20",
        "",
        &vec![moveto(0.10, 0.20)],
        None,
    );

    test_parser(
        "M -.10, -0.20   ",
        "",
        &vec![moveto(-0.10, -0.20)],
        None,
    );

    test_parser(
        "M-.10-0.20",
        "",
        &vec![moveto(-0.10, -0.20)],
        None,
    );

    test_parser(
        "M.10.20",
        "",
        &vec![moveto(0.10, 0.20)],
        None,
    );

    test_parser(
        "M .10E1,.20e-4",
        "",
        &vec![moveto(1.0, 0.000020)],
        None,
    );

    test_parser(
        "M-.10E-2,-.20",
        "",
        &vec![moveto(-0.0010, -0.20)],
        None,
    );

    test_parser(
        "M10.10E2,-0.20e3",
        "",
        &vec![moveto(1010.0, -200.0)],
        None,
    );

    test_parser(
        "M-10.10E2,-0.20e-3",
        "",
        &vec![moveto(-1010.0, -0.00020)],
        None,
    );
}

#[test]
fn handles_single_moveto() {
    test_parser(
        "M 10 20 ",
        "",
        &vec![moveto(10.0, 20.0)],
        None,
    );

    test_parser(
        "M10,20  ",
        "",
        &vec![moveto(10.0, 20.0)],
        None,
    );

    test_parser(
        "M10 20   ",
        "",
        &vec![moveto(10.0, 20.0)],
        None,
    );

    test_parser(
        "    M10,20     ",
        "",
        &vec![moveto(10.0, 20.0)],
        None,
    );
}

#[test]
fn handles_relative_moveto() {
    test_parser(
        "m10 20",
        "",
        &vec![moveto(10.0, 20.0)],
        None,
    );
}

#[test]
fn handles_absolute_moveto_with_implicit_lineto() {
    test_parser(
        "M10 20 30 40",
        "",
        &vec![moveto(10.0, 20.0), lineto(30.0, 40.0)],
        None,
    );

    test_parser(
        "M10,20,30,40",
        "",
        &vec![moveto(10.0, 20.0), lineto(30.0, 40.0)],
        None,
    );

    test_parser(
        "M.1-2,3E2-4",
        "",
        &vec![moveto(0.1, -2.0), lineto(300.0, -4.0)],
        None,
    );
}

#[test]
fn handles_relative_moveto_with_implicit_lineto() {
    test_parser(
        "m10 20 30 40",
        "",
        &vec![moveto(10.0, 20.0), lineto(40.0, 60.0)],
        None,
    );
}

#[test]
fn handles_relative_moveto_with_relative_lineto_sequence() {
    test_parser(
        //          1     2    3    4   5
        "m 46,447 l 0,0.5 -1,0 -1,0 0,1 0,12",
        "",
        &vec![moveto(46.0, 447.0), lineto(46.0, 447.5), lineto(45.0, 447.5),
              lineto(44.0, 447.5), lineto(44.0, 448.5), lineto(44.0, 460.5)],
        None,
    );
}

#[test]
fn handles_absolute_moveto_with_implicit_linetos() {
    test_parser(
        "M10,20 30,40,50 60",
        "",
        &vec![moveto(10.0, 20.0), lineto(30.0, 40.0), lineto(50.0, 60.0)],
        None,
    );
}

#[test]
fn handles_relative_moveto_with_implicit_linetos() {
    test_parser(
        "m10 20 30 40 50 60",
        "",
        &vec![moveto(10.0, 20.0), lineto(40.0, 60.0), lineto(90.0, 120.0)],
        None,
    );
}

#[test]
fn handles_absolute_moveto_moveto() {
    test_parser(
        "M10 20 M 30 40",
        "",
        &vec![moveto(10.0, 20.0), moveto(30.0, 40.0)],
        None,
    );
}

#[test]
fn handles_relative_moveto_moveto() {
    test_parser(
        "m10 20 m 30 40",
        "",
        &vec![moveto(10.0, 20.0), moveto(40.0, 60.0)],
        None,
    );
}

#[test]
fn handles_relative_moveto_lineto_moveto() {
    test_parser(
        "m10 20 30 40 m 50 60",
        "",
        &vec![moveto(10.0, 20.0), lineto(40.0, 60.0), moveto(90.0, 120.0)],
        None,
    );
}

#[test]
fn handles_absolute_moveto_lineto() {
    test_parser(
        "M10 20 L30,40",
        "",
        &vec![moveto(10.0, 20.0), lineto(30.0, 40.0)],
        None,
    );
}

#[test]
fn handles_relative_moveto_lineto() {
    test_parser(
        "m10 20 l30,40",
        "",
        &vec![moveto(10.0, 20.0), lineto(40.0, 60.0)],
        None,
    );
}

#[test]
fn handles_relative_moveto_lineto_lineto_abs_lineto() {
    test_parser(
        "m10 20 30 40l30,40,50 60L200,300",
        "",
        &vec![
            moveto(10.0, 20.0),
            lineto(40.0, 60.0),
            lineto(70.0, 100.0),
            lineto(120.0, 160.0),
            lineto(200.0, 300.0),
        ],
        None,
    );
}

#[test]
fn handles_horizontal_lineto() {
    test_parser(
        "M10 20 H30",
        "",
        &vec![moveto(10.0, 20.0), lineto(30.0, 20.0)],
        None,
    );

    test_parser(
        "M10 20 H30 40",
        "",
        &vec![moveto(10.0, 20.0), lineto(30.0, 20.0), lineto(40.0, 20.0)],
        None,
    );

    test_parser(
        "M10 20 H30,40-50",
        "",
        &vec![
            moveto(10.0, 20.0),
            lineto(30.0, 20.0),
            lineto(40.0, 20.0),
            lineto(-50.0, 20.0),
        ],
        None,
    );

    test_parser(
        "m10 20 h30,40-50",
        "",
        &vec![
            moveto(10.0, 20.0),
            lineto(40.0, 20.0),
            lineto(80.0, 20.0),
            lineto(30.0, 20.0),
        ],
        None,
    );
}

#[test]
fn handles_vertical_lineto() {
    test_parser(
        "M10 20 V30",
        "",
        &vec![moveto(10.0, 20.0), lineto(10.0, 30.0)],
        None,
    );

    test_parser(
        "M10 20 V30 40",
        "",
        &vec![moveto(10.0, 20.0), lineto(10.0, 30.0), lineto(10.0, 40.0)],
        None,
    );

    test_parser(
        "M10 20 V30,40-50",
        "",
        &vec![
            moveto(10.0, 20.0),
            lineto(10.0, 30.0),
            lineto(10.0, 40.0),
            lineto(10.0, -50.0),
        ],
        None,
    );

    test_parser(
        "m10 20 v30,40-50",
        "",
        &vec![
            moveto(10.0, 20.0),
            lineto(10.0, 50.0),
            lineto(10.0, 90.0),
            lineto(10.0, 40.0),
        ],
        None,
    );
}

#[test]
fn handles_curveto() {
    test_parser(
        "M10 20 C 30,40 50 60-70,80",
        "",
        &vec![
            moveto(10.0, 20.0),
            curveto(30.0, 40.0, 50.0, 60.0, -70.0, 80.0),
        ],
        None,
    );

    test_parser(
        "M10 20 C 30,40 50 60-70,80,90 100,110 120,130,140",
        "",
        &vec![
            moveto(10.0, 20.0),
            curveto(30.0, 40.0, 50.0, 60.0, -70.0, 80.0),
            curveto(90.0, 100.0, 110.0, 120.0, 130.0, 140.0),
        ],
        None,
    );

    test_parser(
        "m10 20 c 30,40 50 60-70,80,90 100,110 120,130,140",
        "",
        &vec![
            moveto(10.0, 20.0),
            curveto(40.0, 60.0, 60.0, 80.0, -60.0, 100.0),
            curveto(30.0, 200.0, 50.0, 220.0, 70.0, 240.0),
        ],
        None,
    );

    test_parser(
        "m10 20 c 30,40 50 60-70,80,90 100,110 120,130,140",
        "",
        &vec![
            moveto(10.0, 20.0),
            curveto(40.0, 60.0, 60.0, 80.0, -60.0, 100.0),
            curveto(30.0, 200.0, 50.0, 220.0, 70.0, 240.0),
        ],
        None,
    );
}

#[test]
fn handles_smooth_curveto() {
    test_parser(
        "M10 20 S 30,40-50,60",
        "",
        &vec![
            moveto(10.0, 20.0),
            curveto(10.0, 20.0, 30.0, 40.0, -50.0, 60.0),
        ],
        None,
    );

    test_parser(
        "M10 20 S 30,40 50 60-70,80,90 100",
        "",
        &vec![
            moveto(10.0, 20.0),
            curveto(10.0, 20.0, 30.0, 40.0, 50.0, 60.0),
            curveto(70.0, 80.0, -70.0, 80.0, 90.0, 100.0),
        ],
        None,
    );

    test_parser(
        "m10 20 s 30,40 50 60-70,80,90 100",
        "",
        &vec![
            moveto(10.0, 20.0),
            curveto(10.0, 20.0, 40.0, 60.0, 60.0, 80.0),
            curveto(80.0, 100.0, -10.0, 160.0, 150.0, 180.0),
        ],
        None,
    );
}

#[test]
fn handles_quadratic_curveto() {
    test_parser(
        "M10 20 Q30 40 50 60",
        "",
        &vec![
            moveto(10.0, 20.0),
            curveto(
                70.0 / 3.0,
                100.0 / 3.0,
                110.0 / 3.0,
                140.0 / 3.0,
                50.0,
                60.0,
            ),
        ],
        None,
    );

    test_parser(
        "M10 20 Q30 40 50 60,70,80-90 100",
        "",
        &vec![
            moveto(10.0, 20.0),
            curveto(
                70.0 / 3.0,
                100.0 / 3.0,
                110.0 / 3.0,
                140.0 / 3.0,
                50.0,
                60.0,
            ),
            curveto(
                190.0 / 3.0,
                220.0 / 3.0,
                50.0 / 3.0,
                260.0 / 3.0,
                -90.0,
                100.0,
            ),
        ],
        None,
    );

    test_parser(
        "m10 20 q 30,40 50 60-70,80 90 100",
        "",
        &vec![
            moveto(10.0, 20.0),
            curveto(
                90.0 / 3.0,
                140.0 / 3.0,
                140.0 / 3.0,
                200.0 / 3.0,
                60.0,
                80.0,
            ),
            curveto(
                40.0 / 3.0,
                400.0 / 3.0,
                130.0 / 3.0,
                500.0 / 3.0,
                150.0,
                180.0,
            ),
        ],
        None,
    );
}

#[test]
fn handles_smooth_quadratic_curveto() {
    test_parser(
        "M10 20 T30 40",
        "",
        &vec![
            moveto(10.0, 20.0),
            curveto(10.0, 20.0, 50.0 / 3.0, 80.0 / 3.0, 30.0, 40.0),
        ],
        None,
    );

    test_parser(
        "M10 20 Q30 40 50 60 T70 80",
        "",
        &vec![
            moveto(10.0, 20.0),
            curveto(
                70.0 / 3.0,
                100.0 / 3.0,
                110.0 / 3.0,
                140.0 / 3.0,
                50.0,
                60.0,
            ),
            curveto(190.0 / 3.0, 220.0 / 3.0, 70.0, 80.0, 70.0, 80.0),
        ],
        None,
    );

    test_parser(
        "m10 20 q 30,40 50 60t-70,80",
        "",
        &vec![
            moveto(10.0, 20.0),
            curveto(
                90.0 / 3.0,
                140.0 / 3.0,
                140.0 / 3.0,
                200.0 / 3.0,
                60.0,
                80.0,
            ),
            curveto(220.0 / 3.0, 280.0 / 3.0, 50.0, 120.0, -10.0, 160.0),
        ],
        None,
    );
}

#[test]
fn handles_elliptical_arc() {
    // no space required between arc flags
    test_parser("M 1 2 A 1 2 3 00 6 7",
                "",
                &vec![moveto(1.0, 2.0),
                      arc(1.0, 2.0, 3.0, false, false, 1.0, 2.0, 6.0, 7.0)],
                None);
    // or after...
    test_parser("M 1 2 A 1 2 3 016 7",
                "",
                &vec![moveto(1.0, 2.0),
                      arc(1.0, 2.0, 3.0, false, true, 1.0, 2.0, 6.0, 7.0)],
                None);
    // commas and whitespace are optionally allowed
    test_parser("M 1 2 A 1 2 3 10,6 7",
                "",
                &vec![moveto(1.0, 2.0),
                      arc(1.0, 2.0, 3.0, true, false, 1.0, 2.0, 6.0, 7.0)],
                None);
    test_parser("M 1 2 A 1 2 3 1,16, 7",
                "",
                &vec![moveto(1.0, 2.0),
                      arc(1.0, 2.0, 3.0, true, true, 1.0, 2.0, 6.0, 7.0)],
                None);
    test_parser("M 1 2 A 1 2 3 1,1 6 7",
                "",
                &vec![moveto(1.0, 2.0),
                      arc(1.0, 2.0, 3.0, true, true, 1.0, 2.0, 6.0, 7.0)],
                None);
    test_parser("M 1 2 A 1 2 3 1 1 6 7",
                "",
                &vec![moveto(1.0, 2.0),
                      arc(1.0, 2.0, 3.0, true, true, 1.0, 2.0, 6.0, 7.0)],
                None);
    test_parser("M 1 2 A 1 2 3 1 16 7",
                "",
                &vec![moveto(1.0, 2.0),
                      arc(1.0, 2.0, 3.0, true, true, 1.0, 2.0, 6.0, 7.0)],
                None);
}

#[test]
fn handles_close_path() {
    test_parser("M10 20 Z", "", &vec![moveto(10.0, 20.0), closepath()], None);

    test_parser(
        "m10 20 30 40 m 50 60 70 80 90 100z",
        "",
        &vec![
            moveto(10.0, 20.0),
            lineto(40.0, 60.0),
            moveto(90.0, 120.0),
            lineto(160.0, 200.0),
            lineto(250.0, 300.0),
            closepath(),
        ],
        None,
    );
}

#[test]
fn first_command_must_be_moveto() {
    test_parser(
        "  L10 20",
        "   ^", // FIXME: why is this not at position 2?
        &vec![],
        Some(ErrorKind::UnexpectedCommand(b'L')),
    );
}

#[test]
fn moveto_args() {
    test_parser(
        "M",
        " ^",
        &vec![],
        Some(ErrorKind::UnexpectedEof),
    );

    test_parser(
        "M,",
        " ^",
        &vec![],
        Some(ErrorKind::UnexpectedToken(Comma)),
    );

    test_parser(
        "M10",
        "   ^",
        &vec![],
        Some(ErrorKind::UnexpectedEof),
    );

    test_parser(
        "M10,",
        "    ^",
        &vec![],
        Some(ErrorKind::UnexpectedEof),
    );

    test_parser(
        "M10x",
        "   ^",
        &vec![],
        Some(ErrorKind::UnexpectedToken(Command(b'x'))),
    );

    test_parser(
        "M10,x",
        "    ^",
        &vec![],
        Some(ErrorKind::UnexpectedToken(Command(b'x'))),
    );
}

#[test]
fn moveto_implicit_lineto_args() {
    test_parser(
        "M10-20,",
        "       ^",
        &vec![moveto(10.0, -20.0)],
        Some(ErrorKind::UnexpectedEof),
    );

    test_parser(
        "M10-20-30",
        "         ^",
        &vec![moveto(10.0, -20.0)],
        Some(ErrorKind::UnexpectedEof),
    );

    test_parser(
        "M10-20-30 x",
        "          ^",
        &vec![moveto(10.0, -20.0)],
        Some(ErrorKind::UnexpectedToken(Command(b'x'))),
    );
}

#[test]
fn closepath_no_args() {
    test_parser(
        "M10-20z10",
        "       ^",
        &vec![moveto(10.0, -20.0), closepath()],
        Some(ErrorKind::UnexpectedToken(Number(10.0))),
    );

    test_parser(
        "M10-20z,",
        "       ^",
        &vec![moveto(10.0, -20.0), closepath()],
        Some(ErrorKind::UnexpectedToken(Comma)),
    );
}

#[test]
fn lineto_args() {
    test_parser(
        "M10-20L10",
        "         ^",
        &vec![moveto(10.0, -20.0)],
        Some(ErrorKind::UnexpectedEof),
    );

    test_parser(
        "M 10,10 L 20,20,30",
        "                  ^",
        &vec![moveto(10.0, 10.0), lineto(20.0, 20.0)],
        Some(ErrorKind::UnexpectedEof),
    );

    test_parser(
        "M 10,10 L 20,20,",
        "                ^",
        &vec![moveto(10.0, 10.0), lineto(20.0, 20.0)],
        Some(ErrorKind::UnexpectedEof),
    );
}

#[test]
fn horizontal_lineto_args() {
    test_parser(
        "M10-20H",
        "       ^",
        &vec![moveto(10.0, -20.0)],
        Some(ErrorKind::UnexpectedEof),
    );

    test_parser(
        "M10-20H,",
        "       ^",
        &vec![moveto(10.0, -20.0)],
        Some(ErrorKind::UnexpectedToken(Comma)),
    );

    test_parser(
        "M10-20H30,",
        "          ^",
        &vec![moveto(10.0, -20.0), lineto(30.0, -20.0)],
        Some(ErrorKind::UnexpectedEof),
    );
}

#[test]
fn vertical_lineto_args() {
    test_parser(
        "M10-20v",
        "       ^",
        &vec![moveto(10.0, -20.0)],
        Some(ErrorKind::UnexpectedEof),
    );

    test_parser(
        "M10-20v,",
        "       ^",
        &vec![moveto(10.0, -20.0)],
        Some(ErrorKind::UnexpectedToken(Comma)),
    );

    test_parser(
        "M10-20v30,",
        "          ^",
        &vec![moveto(10.0, -20.0), lineto(10.0, 10.0)],
        Some(ErrorKind::UnexpectedEof),
    );
}

#[test]
fn curveto_args() {
    test_parser(
        "M10-20C1",
        "        ^",
        &vec![moveto(10.0, -20.0)],
        Some(ErrorKind::UnexpectedEof),
    );
    test_parser(
        "M10-20C1,",
        "         ^",
        &vec![moveto(10.0, -20.0)],
        Some(ErrorKind::UnexpectedEof),
    );

    test_parser(
        "M10-20C1 2",
        "          ^",
        &vec![moveto(10.0, -20.0)],
        Some(ErrorKind::UnexpectedEof),
    );
    test_parser(
        "M10-20C1,2,",
        "           ^",
        &vec![moveto(10.0, -20.0)],
        Some(ErrorKind::UnexpectedEof),
    );

    test_parser(
        "M10-20C1 2 3",
        "            ^",
        &vec![moveto(10.0, -20.0)],
        Some(ErrorKind::UnexpectedEof),
    );
    test_parser(
        "M10-20C1,2,3",
        "            ^",
        &vec![moveto(10.0, -20.0)],
        Some(ErrorKind::UnexpectedEof),
    );
    test_parser(
        "M10-20C1,2,3,",
        "             ^",
        &vec![moveto(10.0, -20.0)],
        Some(ErrorKind::UnexpectedEof),
    );

    test_parser(
        "M10-20C1 2 3 4",
        "              ^",
        &vec![moveto(10.0, -20.0)],
        Some(ErrorKind::UnexpectedEof),
    );
    test_parser(
        "M10-20C1,2,3,4",
        "              ^",
        &vec![moveto(10.0, -20.0)],
        Some(ErrorKind::UnexpectedEof),
    );
    test_parser(
        "M10-20C1,2,3,4,",
        "               ^",
        &vec![moveto(10.0, -20.0)],
        Some(ErrorKind::UnexpectedEof),
    );

    test_parser(
        "M10-20C1 2 3 4 5",
        "                ^",
        &vec![moveto(10.0, -20.0)],
        Some(ErrorKind::UnexpectedEof),
    );
    test_parser(
        "M10-20C1,2,3,4,5",
        "                ^",
        &vec![moveto(10.0, -20.0)],
        Some(ErrorKind::UnexpectedEof),
    );
    test_parser(
        "M10-20C1,2,3,4,5,",
        "                 ^",
        &vec![moveto(10.0, -20.0)],
        Some(ErrorKind::UnexpectedEof),
    );

    test_parser(
        "M10-20C1,2,3,4,5,6,",
        "                   ^",
        &vec![moveto(10.0, -20.0), curveto(1.0, 2.0, 3.0, 4.0, 5.0, 6.0)],
        Some(ErrorKind::UnexpectedEof),
    );
}

#[test]
fn smooth_curveto_args() {
    test_parser(
        "M10-20S1",
        "        ^",
        &vec![moveto(10.0, -20.0)],
        Some(ErrorKind::UnexpectedEof),
    );
    test_parser(
        "M10-20S1,",
        "         ^",
        &vec![moveto(10.0, -20.0)],
        Some(ErrorKind::UnexpectedEof),
    );

    test_parser(
        "M10-20S1 2",
        "          ^",
        &vec![moveto(10.0, -20.0)],
        Some(ErrorKind::UnexpectedEof),
    );
    test_parser(
        "M10-20S1,2,",
        "           ^",
        &vec![moveto(10.0, -20.0)],
        Some(ErrorKind::UnexpectedEof),
    );

    test_parser(
        "M10-20S1 2 3",
        "            ^",
        &vec![moveto(10.0, -20.0)],
        Some(ErrorKind::UnexpectedEof),
    );
    test_parser(
        "M10-20S1,2,3",
        "            ^",
        &vec![moveto(10.0, -20.0)],
        Some(ErrorKind::UnexpectedEof),
    );
    test_parser(
        "M10-20S1,2,3,",
        "             ^",
        &vec![moveto(10.0, -20.0)],
        Some(ErrorKind::UnexpectedEof),
    );

    test_parser(
        "M10-20S1,2,3,4,",
        "               ^",
        &vec![
            moveto(10.0, -20.0),
            curveto(10.0, -20.0, 1.0, 2.0, 3.0, 4.0),
        ],
        Some(ErrorKind::UnexpectedEof),
    );
}

#[test]
fn quadratic_bezier_curveto_args() {
    test_parser(
        "M10-20Q1",
        "        ^",
        &vec![moveto(10.0, -20.0)],
        Some(ErrorKind::UnexpectedEof),
    );
    test_parser(
        "M10-20Q1,",
        "         ^",
        &vec![moveto(10.0, -20.0)],
        Some(ErrorKind::UnexpectedEof),
    );

    test_parser(
        "M10-20Q1 2",
        "          ^",
        &vec![moveto(10.0, -20.0)],
        Some(ErrorKind::UnexpectedEof),
    );
    test_parser(
        "M10-20Q1,2,",
        "           ^",
        &vec![moveto(10.0, -20.0)],
        Some(ErrorKind::UnexpectedEof),
    );

    test_parser(
        "M10-20Q1 2 3",
        "            ^",
        &vec![moveto(10.0, -20.0)],
        Some(ErrorKind::UnexpectedEof),
    );
    test_parser(
        "M10-20Q1,2,3",
        "            ^",
        &vec![moveto(10.0, -20.0)],
        Some(ErrorKind::UnexpectedEof),
    );
    test_parser(
        "M10-20Q1,2,3,",
        "             ^",
        &vec![moveto(10.0, -20.0)],
        Some(ErrorKind::UnexpectedEof),
    );

    test_parser(
        "M10 20 Q30 40 50 60,",
        "                    ^",
        &vec![
            moveto(10.0, 20.0),
            curveto(
                70.0 / 3.0,
                100.0 / 3.0,
                110.0 / 3.0,
                140.0 / 3.0,
                50.0,
                60.0,
            ),
        ],
        Some(ErrorKind::UnexpectedEof),
    );
}

#[test]
fn smooth_quadratic_bezier_curveto_args() {
    test_parser(
        "M10-20T1",
        "        ^",
        &vec![moveto(10.0, -20.0)],
        Some(ErrorKind::UnexpectedEof),
    );
    test_parser(
        "M10-20T1,",
        "         ^",
        &vec![moveto(10.0, -20.0)],
        Some(ErrorKind::UnexpectedEof),
    );

    test_parser(
        "M10 20 T30 40,",
        "              ^",
        &vec![
            moveto(10.0, 20.0),
            curveto(10.0, 20.0, 50.0 / 3.0, 80.0 / 3.0, 30.0, 40.0),
        ],
        Some(ErrorKind::UnexpectedEof),
    );
}

#[test]
fn elliptical_arc_args() {
    test_parser(
        "M10-20A1",
        "        ^",
        &vec![moveto(10.0, -20.0)],
        Some(ErrorKind::UnexpectedEof),
    );
    test_parser(
        "M10-20A1,",
        "         ^",
        &vec![moveto(10.0, -20.0)],
        Some(ErrorKind::UnexpectedEof),
    );

    test_parser(
        "M10-20A1 2",
        "          ^",
        &vec![moveto(10.0, -20.0)],
        Some(ErrorKind::UnexpectedEof),
    );
    test_parser(
        "M10-20A1 2,",
        "           ^",
        &vec![moveto(10.0, -20.0)],
        Some(ErrorKind::UnexpectedEof),
    );

    test_parser(
        "M10-20A1 2 3",
        "            ^",
        &vec![moveto(10.0, -20.0)],
        Some(ErrorKind::UnexpectedEof),
    );
    test_parser(
        "M10-20A1 2 3,",
        "             ^",
        &vec![moveto(10.0, -20.0)],
        Some(ErrorKind::UnexpectedEof),
    );

    test_parser(
        "M10-20A1 2 3 4",
        "             ^",
        &vec![moveto(10.0, -20.0)],
        Some(ErrorKind::LexError(LexError::UnexpectedByte(b'4'))),
    );

    test_parser(
        "M10-20A1 2 3 1",
        "              ^",
        &vec![moveto(10.0, -20.0)],
        Some(ErrorKind::UnexpectedEof),
    );
    test_parser(
        "M10-20A1 2 3,1,",
        "               ^",
        &vec![moveto(10.0, -20.0)],
        Some(ErrorKind::UnexpectedEof),
    );

    test_parser(
        "M10-20A1 2 3 1 5",
        "               ^",
        &vec![moveto(10.0, -20.0)],
        Some(ErrorKind::LexError(LexError::UnexpectedByte(b'5'))),
    );

    test_parser(
        "M10-20A1 2 3 1 1",
        "                ^",
        &vec![moveto(10.0, -20.0)],
        Some(ErrorKind::UnexpectedEof),
    );
    test_parser(
        "M10-20A1 2 3,1,1,",
        "                 ^",
        &vec![moveto(10.0, -20.0)],
        Some(ErrorKind::UnexpectedEof),
    );

    test_parser(
        "M10-20A1 2 3 1 1 6",
        "                  ^",
        &vec![moveto(10.0, -20.0)],
        Some(ErrorKind::UnexpectedEof),
    );
    test_parser(
        "M10-20A1 2 3,1,1,6,",
        "                   ^",
        &vec![moveto(10.0, -20.0)],
        Some(ErrorKind::UnexpectedEof),
    );

    // no non 0|1 chars allowed for flags
    test_parser("M 1 2 A 1 2 3 1.0 0.0 6 7",
                "               ^",
                &vec![moveto(1.0, 2.0)],
                Some(ErrorKind::UnexpectedToken(Number(0.0))));

    test_parser("M10-20A1 2 3,1,1,6,7,",
                "                     ^",
                &vec![moveto(10.0, -20.0),
                      arc(1.0, 2.0, 3.0, true, true, 10.0, -20.0, 6.0, 7.0)],
                Some(ErrorKind::UnexpectedEof));
}

#[test]
fn bugs() {
    // https://gitlab.gnome.org/GNOME/librsvg/issues/345
    test_parser(
        "M.. 1,0 0,100000",
        " ^", // FIXME: we have to report position of error in lexer errors to make this right
        &vec![],
        Some(ErrorKind::LexError(LexError::UnexpectedByte(b'.'))),
    );
}
