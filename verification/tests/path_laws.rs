use librsvg::path_lexer::is_float_literal;
use librsvg::path_parser::{parse_path, PathSegment};

#[test]
fn blank_path_data_is_empty() {
    let (segments, result) = parse_path(" \t\r\n ");
    assert!(segments.is_empty());
    assert!(result.is_ok());
}

#[test]
fn first_segment_is_a_moveto() {
    for s in ["M1 2L3 4", "m 1 2 z", "L1 2", "M1 2 3 4 5 6"] {
        let (segments, _) = parse_path(s);
        if let Some(first) = segments.first() {
            assert!(matches!(first, PathSegment::MoveTo { .. }));
        }
    }
}

#[test]
fn number_lexemes_are_float_literals() {
    let s = "M.1-2,3E2-4 l1e-2.5";
    let (segments, result) = parse_path(s);
    assert!(result.is_ok());
    for seg in segments {
        if let PathSegment::MoveTo { x, y, .. } | PathSegment::LineTo { x, y, .. } = seg {
            assert!(is_float_literal(&s[x.start..x.end]));
            assert!(is_float_literal(&s[y.start..y.end]));
        }
    }
    assert!(is_float_literal("-1.5e+3"));
    assert!(!is_float_literal("1e"));
    assert!(!is_float_literal("."));
}
