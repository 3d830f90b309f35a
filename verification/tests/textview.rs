use reovim::boxdraw::{
    attr_style, block_polygon, block_rects, box_geometry, box_line_rects, box_pattern, box_stroke, is_box_char, pattern_bytes,
    Builtin, FillPattern, FracRect, Rect, StrokeShape,
};

#[test]
fn it_works() {
    let result = 2 + 2;
    assert_eq!(result, 4);
}

#[test]
fn box_chars() {
    assert!(is_box_char('─'));
    assert!(is_box_char('\u{259f}'));
    assert!(is_box_char('\u{25e2}'));
    assert!(!is_box_char('\u{25e6}'));
    assert!(is_box_char('\u{1fb00}'));
    assert!(!is_box_char('a'));
    assert!(Builtin::has_char('\u{257f}'));
    assert!(!Builtin::has_char('\u{2580}'));
    assert!(Builtin::covers_text("─│┼"));
    assert!(!Builtin::covers_text("─a"));
    assert!(Builtin::covers_text(""));
}

#[test]
fn box_geometry_widths() {
    let g = box_geometry(0x2500, 10, 20, 8, 17, 8, 2);
    assert_eq!(g.width, 16);
    assert_eq!(g.height, 17);
    assert_eq!(g.upper_half, 8);
    assert_eq!(g.left_half, 8);
    assert_eq!(g.light_line_width, 1);
    assert_eq!(g.heavy_line_width, 3);
    assert_eq!((g.xcenter, g.ycenter, g.xright, g.ybottom), (18, 28, 26, 37));
    let double = box_geometry(0x2550, 0, 0, 10, 20, 15, 1);
    assert_eq!(double.light_line_width, 3);
    assert_eq!(double.heavy_line_width, 9);
}

#[test]
fn attribute_styles() {
    assert_eq!(attr_style(1), 0);
    assert_eq!(attr_style(2), 1);
    assert_eq!(attr_style(4), 2);
    assert_eq!(attr_style(6), 3);
}

#[test]
fn line_parts_follow_the_bits() {
    let g = box_geometry(0x2500, 0, 0, 10, 20, 10, 1);
    assert_eq!((g.left_half, g.upper_half, g.light_line_width, g.heavy_line_width), (5, 10, 2, 4));
    let rects = box_line_rects(&g, 100, 200, 0b101);
    assert_eq!(
        rects,
        vec![Rect { x: 107, y: 212, width: 3, height: 8 }, Rect { x: 104, y: 212, width: 2, height: 8 }]
    );
    // Light horizontal: the light middle row across the cell.
    assert_eq!(
        box_line_rects(&g, 0, 0, 0x7c00),
        vec![
            Rect { x: 7, y: 9, width: 3, height: 2 },
            Rect { x: 6, y: 9, width: 1, height: 2 },
            Rect { x: 4, y: 9, width: 2, height: 2 },
            Rect { x: 3, y: 9, width: 1, height: 2 },
            Rect { x: 0, y: 9, width: 3, height: 2 },
        ]
    );
    assert!(box_line_rects(&g, 0, 0, 0).is_empty());
    assert_eq!(box_line_rects(&g, 0, 0, u32::MAX).len(), 25);
}

fn frac(xdenom: i32, ydenom: i32, xb1: i32, yb1: i32, xb2: i32, yb2: i32, alpha_quarters: u8) -> FracRect {
    FracRect { xdenom, ydenom, xb1, yb1, xb2, yb2, alpha_quarters }
}

#[test]
fn block_elements() {
    assert_eq!(block_rects(0x2580), vec![frac(1, 2, 0, 0, 1, 1, 4)]);
    assert_eq!(block_rects(0x2584), vec![frac(1, 8, 0, 4, 1, 8, 4)]);
    assert_eq!(block_rects(0x258c), vec![frac(8, 1, 0, 0, 4, 1, 4)]);
    assert_eq!(block_rects(0x2592), vec![frac(1, 1, 0, 0, 1, 1, 2)]);
    assert_eq!(
        block_rects(0x259a),
        vec![frac(2, 2, 0, 0, 1, 1, 4), frac(2, 2, 1, 1, 2, 2, 4)]
    );
    assert_eq!(block_rects(0x1fb8b), vec![frac(8, 1, 1, 0, 8, 1, 4)]);
    assert_eq!(
        block_rects(0x1fb91),
        vec![frac(1, 2, 0, 0, 1, 1, 4), frac(1, 2, 0, 1, 1, 2, 2)]
    );
    assert!(block_rects(0x2500).is_empty());
    assert!(block_rects(0x1fb68).is_empty());
}

#[test]
fn sextants_follow_the_bits() {
    assert_eq!(block_rects(0x1fb00), vec![frac(2, 3, 0, 0, 1, 1, 4)]);
    assert_eq!(
        block_rects(0x1fb01),
        vec![frac(2, 3, 1, 0, 2, 1, 4)]
    );
    assert_eq!(block_rects(0x1fb02), vec![frac(2, 3, 0, 0, 1, 1, 4), frac(2, 3, 1, 0, 2, 1, 4)]);
    assert_eq!(block_rects(0x1fb3b).len(), 5);
}

#[test]
fn eighth_blocks_of_legacy_computing() {
    assert_eq!(block_rects(0x1fb70), vec![frac(8, 1, 1, 0, 2, 1, 4)]);
    assert_eq!(block_rects(0x1fb74), vec![frac(8, 1, 5, 0, 6, 1, 4)]);
    assert_eq!(block_rects(0x1fb75), vec![frac(8, 1, 6, 0, 7, 1, 4)]);
    assert_eq!(block_rects(0x1fb76), vec![frac(1, 8, 0, 1, 1, 2, 4)]);
    assert_eq!(block_rects(0x1fb7a), vec![frac(1, 8, 0, 5, 1, 6, 4)]);
    assert_eq!(block_rects(0x1fb82), vec![frac(1, 8, 0, 0, 1, 2, 4)]);
    assert_eq!(block_rects(0x1fb83), vec![frac(1, 8, 0, 0, 1, 3, 4)]);
    assert_eq!(block_rects(0x1fb84), vec![frac(1, 8, 0, 0, 1, 5, 4)]);
    assert_eq!(block_rects(0x1fb86), vec![frac(1, 8, 0, 0, 1, 7, 4)]);
    assert_eq!(block_rects(0x1fb87), vec![frac(8, 1, 6, 0, 8, 1, 4)]);
    assert_eq!(block_rects(0x1fb89), vec![frac(8, 1, 3, 0, 8, 1, 4)]);
}

#[test]
fn polygons() {
    let p = block_polygon(0x25e2).unwrap();
    assert_eq!((p.xdenom, p.ydenom, p.alpha_quarters), (1, 1, 4));
    assert_eq!(p.points, vec![(0, 1), (1, 0), (1, 1)]);
    let p = block_polygon(0x1fb3c).unwrap();
    assert_eq!((p.xdenom, p.ydenom), (2, 3));
    assert_eq!(p.points, vec![(0, 2), (1, 3), (0, 3)]);
    let p = block_polygon(0x1fb41).unwrap();
    assert_eq!(p.points, vec![(0, 1), (1, 0), (2, 0), (2, 3), (0, 3)]);
    let p = block_polygon(0x1fb67).unwrap();
    assert_eq!(p.points, vec![(0, 0), (2, 0), (2, 2), (0, 1)]);
    let p = block_polygon(0x1fb68).unwrap();
    assert_eq!((p.xdenom, p.ydenom), (2, 2));
    assert_eq!(p.points, vec![(0, 0), (2, 0), (2, 2), (0, 2), (1, 1)]);
    let p = block_polygon(0x1fb6f).unwrap();
    assert_eq!(p.points, vec![(1, 1), (2, 2), (0, 2)]);
    let p = block_polygon(0x1fb9b).unwrap();
    assert_eq!((p.alpha_quarters, p.points.len()), (4, 4));
    let p = block_polygon(0x1fb9c).unwrap();
    assert_eq!(p.alpha_quarters, 2);
    assert_eq!(p.points, vec![(0, 0), (1, 0), (0, 1)]);
    assert!(block_polygon(0x2500).is_none());
    assert!(block_polygon(0x2580).is_none());
}

#[test]
fn strokes() {
    assert_eq!(box_stroke(0x2504), Some(StrokeShape::Dashed { vertical: false, heavy: false, segments: 8 }));
    assert_eq!(box_stroke(0x2507), Some(StrokeShape::Dashed { vertical: true, heavy: true, segments: 8 }));
    assert_eq!(box_stroke(0x250a), Some(StrokeShape::Dashed { vertical: true, heavy: false, segments: 11 }));
    assert_eq!(box_stroke(0x254d), Some(StrokeShape::Dashed { vertical: false, heavy: true, segments: 5 }));
    assert_eq!(box_stroke(0x256f), Some(StrokeShape::Arc { corner: 2 }));
    assert_eq!(box_stroke(0x2571), Some(StrokeShape::Diagonals { down_right: false, down_left: true }));
    assert_eq!(box_stroke(0x2572), Some(StrokeShape::Diagonals { down_right: true, down_left: false }));
    assert_eq!(box_stroke(0x2573), Some(StrokeShape::Diagonals { down_right: true, down_left: true }));
    assert_eq!(
        box_stroke(0x1fba4),
        Some(StrokeShape::CornerLines { upper_left: true, upper_right: false, lower_left: true, lower_right: false })
    );
    assert_eq!(
        box_stroke(0x1fbae),
        Some(StrokeShape::CornerLines { upper_left: true, upper_right: true, lower_left: true, lower_right: true })
    );
    assert_eq!(box_stroke(0x1fbaf), Some(StrokeShape::CrossedHorizontal));
    assert_eq!(box_stroke(0x2500), None);
    assert_eq!(box_stroke(0x2580), None);
}

#[test]
fn fill_patterns() {
    assert_eq!(box_pattern(0x1fb95), Some(FillPattern::Checkerboard));
    assert_eq!(box_pattern(0x1fb96), Some(FillPattern::CheckerboardReverse));
    assert_eq!(box_pattern(0x1fb98), Some(FillPattern::HatchingFalling));
    assert_eq!(box_pattern(0x1fb99), Some(FillPattern::HatchingRising));
    assert_eq!(box_pattern(0x1fb97), None);
    assert_eq!(
        pattern_bytes(FillPattern::Checkerboard),
        vec![0xff, 0xff, 0, 0, 0xff, 0xff, 0, 0, 0, 0, 0xff, 0xff, 0, 0, 0xff, 0xff]
    );
    assert_eq!(
        pattern_bytes(FillPattern::HatchingRising),
        vec![0, 0, 0, 0xff, 0, 0, 0xff, 0, 0, 0xff, 0, 0, 0xff, 0, 0, 0]
    );
}

#[test]
fn each_shaped_character_is_drawn_one_way() {
    let ranges = [(0x2500u32, 0x259fu32), (0x25e2, 0x25e5), (0x1fb00, 0x1fbaf)];
    for (lo, hi) in ranges {
        for c in lo..=hi {
            let ways = [
                !block_rects(c).is_empty(),
                block_polygon(c).is_some(),
                box_stroke(c).is_some(),
                box_pattern(c).is_some(),
            ]
            .iter()
            .filter(|w| **w)
            .count();
            let lines = (0x2500..=0x2503).contains(&c)
                || (0x250c..=0x254b).contains(&c)
                || (0x2550..=0x256c).contains(&c)
                || (0x2574..=0x257f).contains(&c);
            let expected = if c == 0x1fb93 || lines { 0 } else { 1 };
            assert_eq!(ways, expected, "{:x}", c);
        }
    }
}
