use librsvg::filters::lighting::{normal_at, Normal, Ratio};
use librsvg::rect::IRect;
use librsvg::surface_utils::ImageChannel;

/// A 3 × 3 image whose opacity grows by 10 to the right and by 30 downwards.
fn ramp() -> ImageChannel {
    ImageChannel { width: 3, height: 3, values: vec![0, 10, 20, 30, 40, 50, 60, 70, 80] }
}

fn whole() -> IRect {
    IRect::new(0, 0, 3, 3)
}

fn normal(fx: (u32, u32), nx: i16, fy: (u32, u32), ny: i16) -> Normal {
    Normal {
        factor: (Ratio { num: fx.0, den: fx.1 }, Ratio { num: fy.0, den: fy.1 }),
        normal: (nx, ny),
    }
}

#[test]
fn top_left_normal_uses_the_corner_kernel() {
    assert_eq!(Normal::top_left(&ramp(), whole()), normal((2, 3), -30, (2, 3), -90));
}

#[test]
fn top_row_normal_uses_the_edge_kernel() {
    assert_eq!(Normal::top_row(&ramp(), whole(), 1), normal((1, 3), -60, (1, 2), -120));
}

#[test]
fn interior_normal_uses_the_full_kernel() {
    assert_eq!(Normal::interior(&ramp(), whole(), 1, 1), normal((1, 4), -80, (1, 4), -240));
}

#[test]
fn other_corner_and_edge_normals() {
    let s = ramp();
    let b = whole();
    assert_eq!(Normal::top_right(&s, b), normal((2, 3), -30, (2, 3), -90));
    assert_eq!(Normal::bottom_left(&s, b), normal((2, 3), -30, (2, 3), -90));
    assert_eq!(Normal::bottom_right(&s, b), normal((2, 3), -30, (2, 3), -90));
    assert_eq!(Normal::left_column(&s, b, 1), normal((1, 2), -40, (1, 3), -180));
    assert_eq!(Normal::right_column(&s, b, 1), normal((1, 2), -40, (1, 3), -180));
    assert_eq!(Normal::bottom_row(&s, b, 1), normal((1, 3), -60, (1, 2), -120));
}

#[test]
fn normal_at_picks_the_kernel_of_the_region() {
    let s = ramp();
    let b = whole();
    assert_eq!(normal_at(&s, b, 0, 0), Normal::top_left(&s, b));
    assert_eq!(normal_at(&s, b, 1, 0), Normal::top_row(&s, b, 1));
    assert_eq!(normal_at(&s, b, 2, 1), Normal::right_column(&s, b, 1));
    assert_eq!(normal_at(&s, b, 1, 1), Normal::interior(&s, b, 1, 1));
    assert_eq!(normal_at(&s, b, 2, 2), Normal::bottom_right(&s, b));
}

#[test]
fn uniform_opacity_gives_flat_normals() {
    let s = ImageChannel::filled(4, 3, 200);
    let b = IRect::new(0, 0, 4, 3);
    for y in 0..3u32 {
        for x in 0..4u32 {
            assert_eq!(normal_at(&s, b, x, y).normal, (0, 0));
        }
    }
}

#[test]
fn rect_size() {
    let r = IRect::new(1, 2, 5, 9);
    assert_eq!((r.width(), r.height()), (4, 7));
}
