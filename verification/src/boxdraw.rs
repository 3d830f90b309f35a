use vstd::prelude::*;

verus! {

/// Box Drawing, Block Elements, four triangles of Geometric Shapes, and
/// Symbols for Legacy Computing: the characters drawn by hand, not by a font.
pub open spec fn box_char(c: u32) -> bool {
    (0x2500 <= c <= 0x259f) || (0x25e2 <= c <= 0x25e5) || (0x1fb00 <= c <= 0x1fbaf)
}

pub fn is_box_char(c: char) -> (res: bool)
    ensures
        res == box_char(c as u32),
{
    let c = c as u32;
    (c >= 0x2500 && c <= 0x259f) || (c >= 0x25e2 && c <= 0x25e5) || (c >= 0x1fb00 && c <= 0x1fbaf)
}

/// The built-in box drawing font: it covers the Box Drawing block.
pub struct Builtin;

impl Builtin {
    pub open spec fn covers(c: u32) -> bool {
        0x2500 <= c <= 0x257f
    }

    pub fn has_char(c: char) -> (res: bool)
        ensures
            res == Builtin::covers(c as u32),
    {
        let c = c as u32;
        c >= 0x2500 && c <= 0x257f
    }

    /// Whether every character of `text` is drawn with the built-in font (an
    /// empty text counts as drawn with it).
    pub fn covers_text(text: &str) -> (res: bool)
        ensures
            res == forall|i: int| 0 <= i < text@.len() ==> Builtin::covers(#[trigger] text@[i] as u32),
    {
        let n = vstd::string::StrSliceExecFns::unicode_len(text);
        let mut i: usize = 0;
        while i < n
            invariant
                n == text@.len(),
                i <= n,
                forall|j: int| 0 <= j < i ==> Builtin::covers(#[trigger] text@[j] as u32),
            decreases n - i,
        {
            if !Builtin::has_char(vstd::string::StrSliceExecFns::get_char(text, i)) {
                return false;
            }
            i = i + 1;
        }
        true
    }
}

/// The measures a box drawing character is drawn with, in device pixels.
#[derive(Copy, Clone, Debug, PartialEq, Eq)]
pub struct BoxGeometry {
    pub width: i32,
    pub height: i32,
    pub upper_half: i32,
    pub left_half: i32,
    pub light_line_width: i32,
    pub heavy_line_width: i32,
    pub xcenter: i32,
    pub ycenter: i32,
    pub xright: i32,
    pub ybottom: i32,
}

/// Double lines (U+2550..U+256C) are three light lines wide; heavy lines two
/// pixels wider than light ones.
pub open spec fn heavy_width(c: u32, light: int) -> int {
    if 0x2550 <= c <= 0x256c {
        3 * light
    } else {
        light + 2
    }
}

/// Whether the measures of a character `columns` cells wide at `(x, y)` fit in `i32`.
pub open spec fn geometry_fits(c: u32, x: i32, y: i32, cell_width: i32, cell_height: i32, font_width: i32, columns: i32) -> bool {
    let width = cell_width * columns;
    let light = if font_width / 5 >= 1 { font_width / 5 } else { 1 };
    &&& 0 <= cell_width && 0 <= cell_height && 0 <= font_width && 0 <= columns
    &&& width <= i32::MAX
    &&& heavy_width(c, light) <= i32::MAX
    &&& i32::MIN <= x + width <= i32::MAX
    &&& i32::MIN <= y + cell_height <= i32::MAX
}

/// The measures `draw_box_char` computes before it draws character `c`: the
/// cell box, its halves and edges, and the widths of light and heavy lines
/// (a fifth of the font width, at least one pixel).
pub fn box_geometry(c: u32, x: i32, y: i32, cell_width: i32, cell_height: i32, font_width: i32, columns: i32) -> (res: BoxGeometry)
    requires
        box_char(c),
        geometry_fits(c, x, y, cell_width, cell_height, font_width, columns),
    ensures
        res.width == cell_width * columns,
        res.height == cell_height,
        res.upper_half == cell_height / 2,
        res.left_half == (cell_width * columns) / 2,
        res.light_line_width == if font_width / 5 >= 1 { font_width / 5 } else { 1 },
        res.heavy_line_width == heavy_width(c, res.light_line_width as int),
        res.xcenter == x + res.left_half,
        res.ycenter == y + res.upper_half,
        res.xright == x + res.width,
        res.ybottom == y + res.height,
{
    let width = cell_width * columns;
    let height = cell_height;
    let upper_half = height / 2;
    let left_half = width / 2;
    let light = font_width / 5;
    let light_line_width = if light >= 1 { light } else { 1 };
    let heavy_line_width = if c >= 0x2550 && c <= 0x256c {
        3 * light_line_width
    } else {
        light_line_width + 2
    };
    BoxGeometry {
        width,
        height,
        upper_half,
        left_half,
        light_line_width,
        heavy_line_width,
        xcenter: x + left_half,
        ycenter: y + upper_half,
        xright: x + width,
        ybottom: y + height,
    }
}

/// Where a box drawing line's strokes fall across a cell of `size` pixels
/// whose middle is at `half`: the cell edge, the edges of the heavy and of
/// the light stroke, and the far edge.
pub open spec fn boundaries(half: int, light: int, heavy: int, size: int) -> Seq<int> {
    seq![0, half - heavy / 2, half - light / 2, half - light / 2 + light, half - heavy / 2 + heavy, size]
}

/// A filled rectangle: its top left corner and its size.
#[derive(Copy, Clone, Debug, PartialEq, Eq)]
pub struct Rect {
    pub x: i32,
    pub y: i32,
    pub width: i32,
    pub height: i32,
}

pub open spec fn xbounds(g: BoxGeometry) -> Seq<int> {
    boundaries(g.left_half as int, g.light_line_width as int, g.heavy_line_width as int, g.width as int)
}

pub open spec fn ybounds(g: BoxGeometry) -> Seq<int> {
    boundaries(g.upper_half as int, g.light_line_width as int, g.heavy_line_width as int, g.height as int)
}

/// The rectangle of step `k` of the walk over the 5 x 5 parts of a cell,
/// from the bottom right part leftwards and upwards, for a cell at `(x, y)`.
pub open spec fn part_rect(g: BoxGeometry, x: int, y: int, k: int) -> (int, int, int, int) {
    let xi = 4 - k % 5;
    let yi = 4 - k / 5;
    let xb = xbounds(g);
    let yb = ybounds(g);
    (x + xb[xi], y + yb[yi], xb[xi + 1] - xb[xi], yb[yi + 1] - yb[yi])
}

/// The rectangles the line drawing fills from step `k` on, the bitmap
/// shifted right once per step: step `k` fills its part when bit `k` of the
/// character's bitmap is set.
pub open spec fn line_rects(g: BoxGeometry, x: int, y: int, bitmap: u32, k: nat) -> Seq<(int, int, int, int)>
    decreases 25 - k,
{
    if k >= 25 {
        Seq::empty()
    } else {
        (if bitmap & 1 == 1 { seq![part_rect(g, x, y, k as int)] } else { Seq::empty() })
            + line_rects(g, x, y, bitmap >> 1, k + 1)
    }
}

/// Whether every rectangle of the walk fits in `i32`.
pub open spec fn line_rects_fit(g: BoxGeometry, x: i32, y: i32) -> bool {
    forall|k: int| 0 <= k < 25 ==> {
        let r = #[trigger] part_rect(g, x as int, y as int, k);
        &&& i32::MIN <= r.0 <= i32::MAX && i32::MIN <= r.1 <= i32::MAX
        &&& i32::MIN <= r.2 <= i32::MAX && i32::MIN <= r.3 <= i32::MAX
    }
}

pub open spec fn rect_views(v: Seq<Rect>) -> Seq<(int, int, int, int)> {
    v.map_values(|r: Rect| (r.x as int, r.y as int, r.width as int, r.height as int))
}

/// The rectangles that draw a box drawing line character whose parts are
/// given by `bitmap`, for a cell at `(x, y)` with the measures `g`.
pub fn box_line_rects(g: &BoxGeometry, x: i32, y: i32, bitmap: u32) -> (res: Vec<Rect>)
    requires
        line_rects_fit(*g, x, y),
        0 <= g.light_line_width && 0 <= g.heavy_line_width,
    ensures
        rect_views(res@) == line_rects(*g, x as int, y as int, bitmap, 0),
{
    let mut res: Vec<Rect> = Vec::new();
    let mut bits = bitmap;
    let mut k: usize = 0;
    while k < 25
        invariant
            k <= 25,
            line_rects_fit(*g, x, y),
            0 <= g.light_line_width && 0 <= g.heavy_line_width,
            line_rects(*g, x as int, y as int, bitmap, 0) == rect_views(res@) + line_rects(*g, x as int, y as int, bits, k as nat),
        decreases 25 - k,
    {
        let ghost before = res@;
        if bits & 1 == 1 {
            let r = part(g, x, y, k);
            res.push(r);
            assert(rect_views(res@) =~= rect_views(before) + seq![part_rect(*g, x as int, y as int, k as int)]);
        } else {
            assert(rect_views(res@) =~= rect_views(before) + Seq::<(int, int, int, int)>::empty());
        }
        bits = bits >> 1;
        k = k + 1;
    }
    assert(line_rects(*g, x as int, y as int, bits, 25) =~= Seq::<(int, int, int, int)>::empty());
    assert(rect_views(res@) + Seq::<(int, int, int, int)>::empty() =~= rect_views(res@));
    res
}

/// The rectangle of step `k`.
fn part(g: &BoxGeometry, x: i32, y: i32, k: usize) -> (res: Rect)
    requires
        k < 25,
        line_rects_fit(*g, x, y),
        0 <= g.light_line_width && 0 <= g.heavy_line_width,
    ensures
        (res.x as int, res.y as int, res.width as int, res.height as int) == part_rect(*g, x as int, y as int, k as int),
{
    let xi = 4 - k % 5;
    let yi = 4 - k / 5;
    let (x0, x1) = bound_pair(g.left_half, g.light_line_width, g.heavy_line_width, g.width, xi);
    let (y0, y1) = bound_pair(g.upper_half, g.light_line_width, g.heavy_line_width, g.height, yi);
    Rect {
        x: (x as i64 + x0) as i32,
        y: (y as i64 + y0) as i32,
        width: (x1 - x0) as i32,
        height: (y1 - y0) as i32,
    }
}

/// Boundaries `i` and `i + 1` of a cell.
fn bound_pair(half: i32, light: i32, heavy: i32, size: i32, i: usize) -> (res: (i64, i64))
    requires
        i < 5,
        0 <= light && 0 <= heavy,
    ensures
        res.0 == boundaries(half as int, light as int, heavy as int, size as int)[i as int],
        res.1 == boundaries(half as int, light as int, heavy as int, size as int)[i + 1],
{
    let half = half as i64;
    let light = light as i64;
    let heavy = heavy as i64;
    let b: [i64; 6] = [0, half - heavy / 2, half - light / 2, half - light / 2 + light, half - heavy / 2 + heavy, size as i64];
    proof {
        assert(b@ =~= boundaries(half as int, light as int, heavy as int, size as int).map_values(|v: int| v as i64));
    }
    (b[i], b[i + 1])
}

/// A rectangle given as fractions of the cell: from `xb1 / xdenom` to
/// `xb2 / xdenom` of its width and from `yb1 / ydenom` to `yb2 / ydenom` of
/// its height, filled with `alpha_quarters` quarters of full opacity.
#[derive(Copy, Clone, Debug, PartialEq, Eq)]
pub struct FracRect {
    pub xdenom: i32,
    pub ydenom: i32,
    pub xb1: i32,
    pub yb1: i32,
    pub xb2: i32,
    pub yb2: i32,
    pub alpha_quarters: u8,
}

pub open spec fn fr(xdenom: i32, ydenom: i32, xb1: i32, yb1: i32, xb2: i32, yb2: i32, alpha_quarters: u8) -> FracRect {
    FracRect { xdenom, ydenom, xb1, yb1, xb2, yb2, alpha_quarters }
}

/// The parts of a sextant character's 2 x 3 grid filled from part `k` on,
/// row by row from the top and left to right, the bits shifted right once
/// per part: part `k` is filled when bit `k` of the character's bits is set.
pub open spec fn sextant_rects(bits: u32, k: nat) -> Seq<FracRect>
    decreases 6 - k,
{
    if k >= 6 {
        Seq::empty()
    } else {
        let xi = (k % 2) as i32;
        let yi = (k / 2) as i32;
        (if bits & 1 == 1 { seq![fr(2, 3, xi, yi, (xi + 1) as i32, (yi + 1) as i32, 4)] } else { Seq::empty() })
            + sextant_rects(bits >> 1, k + 1)
    }
}

/// The bits of sextant character `c`: its offset in the block plus one,
/// skipping the two patterns that are block elements (left and right half).
pub open spec fn sextant_bits(c: u32) -> u32 {
    let b = (c - 0x1fb00 + 1) as u32;
    let b2 = if b >= 0x15 { (b + 1) as u32 } else { b };
    if b2 >= 0x2a { (b2 + 1) as u32 } else { b2 }
}

/// The eighths of the cell the `i`-th of a run of five blocks covers: two,
/// three, five, six and seven (the half has a character of its own).
pub open spec fn eighths_past_half(i: int) -> i32 {
    if i + 2 >= 4 {
        (i + 3) as i32
    } else {
        (i + 2) as i32
    }
}

/// The rectangles that draw block element and legacy computing character
/// `c`; the characters drawn with lines, polygons or patterns have none.
pub open spec fn block_shape(c: u32) -> Seq<FracRect> {
    if c == 0x2580 {
        seq![fr(1, 2, 0, 0, 1, 1, 4)]
    } else if 0x2581 <= c <= 0x2587 {
        seq![fr(1, 8, 0, (0x2588 - c) as i32, 1, 8, 4)]
    } else if 0x2588 <= c <= 0x258f {
        seq![fr(8, 1, 0, 0, (0x2590 - c) as i32, 1, 4)]
    } else if c == 0x2590 {
        seq![fr(2, 1, 1, 0, 2, 1, 4)]
    } else if 0x2591 <= c <= 0x2593 {
        seq![fr(1, 1, 0, 0, 1, 1, (c - 0x2590) as u8)]
    } else if c == 0x2594 {
        seq![fr(1, 8, 0, 0, 1, 1, 4)]
    } else if c == 0x2595 {
        seq![fr(8, 1, 7, 0, 8, 1, 4)]
    } else if c == 0x2596 {
        seq![fr(2, 2, 0, 1, 1, 2, 4)]
    } else if c == 0x2597 {
        seq![fr(2, 2, 1, 1, 2, 2, 4)]
    } else if c == 0x2598 {
        seq![fr(2, 2, 0, 0, 1, 1, 4)]
    } else if c == 0x2599 {
        seq![fr(2, 2, 0, 0, 1, 1, 4), fr(2, 2, 0, 1, 2, 2, 4)]
    } else if c == 0x259a {
        seq![fr(2, 2, 0, 0, 1, 1, 4), fr(2, 2, 1, 1, 2, 2, 4)]
    } else if c == 0x259b {
        seq![fr(2, 2, 0, 0, 2, 1, 4), fr(2, 2, 0, 1, 1, 2, 4)]
    } else if c == 0x259c {
        seq![fr(2, 2, 0, 0, 2, 1, 4), fr(2, 2, 1, 1, 2, 2, 4)]
    } else if c == 0x259d {
        seq![fr(2, 2, 1, 0, 2, 1, 4)]
    } else if c == 0x259e {
        seq![fr(2, 2, 1, 0, 2, 1, 4), fr(2, 2, 0, 1, 1, 2, 4)]
    } else if c == 0x259f {
        seq![fr(2, 2, 1, 0, 2, 1, 4), fr(2, 2, 0, 1, 2, 2, 4)]
    } else if 0x1fb00 <= c <= 0x1fb3b {
        sextant_rects(sextant_bits(c), 0)
    } else if 0x1fb70 <= c <= 0x1fb75 {
        seq![fr(8, 1, (c - 0x1fb70 + 1) as i32, 0, (c - 0x1fb70 + 2) as i32, 1, 4)]
    } else if 0x1fb76 <= c <= 0x1fb7b {
        seq![fr(1, 8, 0, (c - 0x1fb76 + 1) as i32, 1, (c - 0x1fb76 + 2) as i32, 4)]
    } else if c == 0x1fb7c {
        seq![fr(1, 8, 0, 7, 1, 8, 4), fr(8, 1, 0, 0, 1, 1, 4)]
    } else if c == 0x1fb7d {
        seq![fr(1, 8, 0, 0, 1, 1, 4), fr(8, 1, 0, 0, 1, 1, 4)]
    } else if c == 0x1fb7e {
        seq![fr(1, 8, 0, 0, 1, 1, 4), fr(8, 1, 7, 0, 8, 1, 4)]
    } else if c == 0x1fb7f {
        seq![fr(1, 8, 0, 7, 1, 8, 4), fr(8, 1, 7, 0, 8, 1, 4)]
    } else if c == 0x1fb80 {
        seq![fr(1, 8, 0, 0, 1, 1, 4), fr(1, 8, 0, 7, 1, 8, 4)]
    } else if c == 0x1fb81 {
        seq![fr(1, 8, 0, 0, 1, 1, 4), fr(1, 8, 0, 2, 1, 3, 4), fr(1, 8, 0, 4, 1, 5, 4), fr(1, 8, 0, 7, 1, 8, 4)]
    } else if 0x1fb82 <= c <= 0x1fb86 {
        seq![fr(1, 8, 0, 0, 1, eighths_past_half(c - 0x1fb82), 4)]
    } else if 0x1fb87 <= c <= 0x1fb8b {
        seq![fr(8, 1, (8 - eighths_past_half(c - 0x1fb87)) as i32, 0, 8, 1, 4)]
    } else if c == 0x1fb8c {
        seq![fr(2, 1, 0, 0, 1, 1, 2)]
    } else if c == 0x1fb8d {
        seq![fr(2, 1, 1, 0, 2, 1, 2)]
    } else if c == 0x1fb8e {
        seq![fr(1, 2, 0, 0, 1, 1, 2)]
    } else if c == 0x1fb8f {
        seq![fr(1, 2, 0, 1, 1, 2, 2)]
    } else if c == 0x1fb90 {
        seq![fr(1, 1, 0, 0, 1, 1, 2)]
    } else if c == 0x1fb91 {
        seq![fr(1, 2, 0, 0, 1, 1, 4), fr(1, 2, 0, 1, 1, 2, 2)]
    } else if c == 0x1fb92 {
        seq![fr(1, 2, 0, 1, 1, 2, 4), fr(1, 2, 0, 0, 1, 1, 2)]
    } else if c == 0x1fb94 {
        seq![fr(2, 1, 1, 0, 2, 1, 4), fr(2, 1, 0, 0, 1, 1, 2)]
    } else if c == 0x1fb97 {
        seq![fr(1, 4, 0, 1, 1, 2, 4), fr(1, 4, 0, 3, 1, 4, 4)]
    } else {
        Seq::empty()
    }
}

fn rect_of(xdenom: i32, ydenom: i32, xb1: i32, yb1: i32, xb2: i32, yb2: i32, alpha_quarters: u8) -> (res: Vec<FracRect>)
    ensures
        res@ == seq![fr(xdenom, ydenom, xb1, yb1, xb2, yb2, alpha_quarters)],
{
    let mut v: Vec<FracRect> = Vec::new();
    v.push(FracRect { xdenom, ydenom, xb1, yb1, xb2, yb2, alpha_quarters });
    assert(v@ =~= seq![fr(xdenom, ydenom, xb1, yb1, xb2, yb2, alpha_quarters)]);
    v
}

fn rects_of(a: FracRect, b: FracRect) -> (res: Vec<FracRect>)
    ensures
        res@ == seq![a, b],
{
    let mut v: Vec<FracRect> = Vec::new();
    v.push(a);
    v.push(b);
    assert(v@ =~= seq![a, b]);
    v
}

fn sextants(bits: u32) -> (res: Vec<FracRect>)
    ensures
        res@ == sextant_rects(bits, 0),
{
    let mut res: Vec<FracRect> = Vec::new();
    let mut b = bits;
    let mut k: u32 = 0;
    while k < 6
        invariant
            k <= 6,
            sextant_rects(bits, 0) == res@ + sextant_rects(b, k as nat),
        decreases 6 - k,
    {
        let ghost before = res@;
        if b & 1 == 1 {
            let xi = (k % 2) as i32;
            let yi = (k / 2) as i32;
            res.push(FracRect { xdenom: 2, ydenom: 3, xb1: xi, yb1: yi, xb2: xi + 1, yb2: yi + 1, alpha_quarters: 4 });
            assert(res@ =~= before + seq![fr(2, 3, xi, yi, (xi + 1) as i32, (yi + 1) as i32, 4)]);
        } else {
            assert(res@ =~= before + Seq::<FracRect>::empty());
        }
        b = b >> 1;
        k = k + 1;
    }
    assert(sextant_rects(b, 6) =~= Seq::<FracRect>::empty());
    assert(res@ + Seq::<FracRect>::empty() =~= res@);
    res
}

/// The rectangles that draw block element and legacy computing character
/// `c`, as fractions of the cell.
pub fn block_rects(c: u32) -> (res: Vec<FracRect>)
    requires
        box_char(c),
    ensures
        res@ == block_shape(c),
{
    if c == 0x2580 {
        rect_of(1, 2, 0, 0, 1, 1, 4)
    } else if 0x2581 <= c && c <= 0x2587 {
        rect_of(1, 8, 0, (0x2588 - c) as i32, 1, 8, 4)
    } else if 0x2588 <= c && c <= 0x258f {
        rect_of(8, 1, 0, 0, (0x2590 - c) as i32, 1, 4)
    } else if c == 0x2590 {
        rect_of(2, 1, 1, 0, 2, 1, 4)
    } else if 0x2591 <= c && c <= 0x2593 {
        rect_of(1, 1, 0, 0, 1, 1, (c - 0x2590) as u8)
    } else if c == 0x2594 {
        rect_of(1, 8, 0, 0, 1, 1, 4)
    } else if c == 0x2595 {
        rect_of(8, 1, 7, 0, 8, 1, 4)
    } else if c == 0x2596 {
        rect_of(2, 2, 0, 1, 1, 2, 4)
    } else if c == 0x2597 {
        rect_of(2, 2, 1, 1, 2, 2, 4)
    } else if c == 0x2598 {
        rect_of(2, 2, 0, 0, 1, 1, 4)
    } else if c == 0x2599 {
        rects_of(frac(2, 2, 0, 0, 1, 1, 4), frac(2, 2, 0, 1, 2, 2, 4))
    } else if c == 0x259a {
        rects_of(frac(2, 2, 0, 0, 1, 1, 4), frac(2, 2, 1, 1, 2, 2, 4))
    } else if c == 0x259b {
        rects_of(frac(2, 2, 0, 0, 2, 1, 4), frac(2, 2, 0, 1, 1, 2, 4))
    } else if c == 0x259c {
        rects_of(frac(2, 2, 0, 0, 2, 1, 4), frac(2, 2, 1, 1, 2, 2, 4))
    } else if c == 0x259d {
        rect_of(2, 2, 1, 0, 2, 1, 4)
    } else if c == 0x259e {
        rects_of(frac(2, 2, 1, 0, 2, 1, 4), frac(2, 2, 0, 1, 1, 2, 4))
    } else if c == 0x259f {
        rects_of(frac(2, 2, 1, 0, 2, 1, 4), frac(2, 2, 0, 1, 2, 2, 4))
    } else if 0x1fb00 <= c && c <= 0x1fb3b {
        let mut bits = c - 0x1fb00 + 1;
        if bits >= 0x15 {
            bits = bits + 1;
        }
        if bits >= 0x2a {
            bits = bits + 1;
        }
        sextants(bits)
    } else if 0x1fb70 <= c && c <= 0x1fb75 {
        let v = (c - 0x1fb70 + 1) as i32;
        rect_of(8, 1, v, 0, v + 1, 1, 4)
    } else if 0x1fb76 <= c && c <= 0x1fb7b {
        let v = (c - 0x1fb76 + 1) as i32;
        rect_of(1, 8, 0, v, 1, v + 1, 4)
    } else if c == 0x1fb7c {
        rects_of(frac(1, 8, 0, 7, 1, 8, 4), frac(8, 1, 0, 0, 1, 1, 4))
    } else if c == 0x1fb7d {
        rects_of(frac(1, 8, 0, 0, 1, 1, 4), frac(8, 1, 0, 0, 1, 1, 4))
    } else if c == 0x1fb7e {
        rects_of(frac(1, 8, 0, 0, 1, 1, 4), frac(8, 1, 7, 0, 8, 1, 4))
    } else if c == 0x1fb7f {
        rects_of(frac(1, 8, 0, 7, 1, 8, 4), frac(8, 1, 7, 0, 8, 1, 4))
    } else if c == 0x1fb80 {
        rects_of(frac(1, 8, 0, 0, 1, 1, 4), frac(1, 8, 0, 7, 1, 8, 4))
    } else if c == 0x1fb81 {
        let mut v = rects_of(frac(1, 8, 0, 0, 1, 1, 4), frac(1, 8, 0, 2, 1, 3, 4));
        v.push(frac(1, 8, 0, 4, 1, 5, 4));
        v.push(frac(1, 8, 0, 7, 1, 8, 4));
        assert(v@ =~= block_shape(c));
        v
    } else if 0x1fb82 <= c && c <= 0x1fb86 {
        let mut v = (c - 0x1fb82 + 2) as i32;
        if v >= 4 {
            v = v + 1;
        }
        rect_of(1, 8, 0, 0, 1, v, 4)
    } else if 0x1fb87 <= c && c <= 0x1fb8b {
        let mut v = (c - 0x1fb87 + 2) as i32;
        if v >= 4 {
            v = v + 1;
        }
        rect_of(8, 1, 8 - v, 0, 8, 1, 4)
    } else if c == 0x1fb8c {
        rect_of(2, 1, 0, 0, 1, 1, 2)
    } else if c == 0x1fb8d {
        rect_of(2, 1, 1, 0, 2, 1, 2)
    } else if c == 0x1fb8e {
        rect_of(1, 2, 0, 0, 1, 1, 2)
    } else if c == 0x1fb8f {
        rect_of(1, 2, 0, 1, 1, 2, 2)
    } else if c == 0x1fb90 {
        rect_of(1, 1, 0, 0, 1, 1, 2)
    } else if c == 0x1fb91 {
        rects_of(frac(1, 2, 0, 0, 1, 1, 4), frac(1, 2, 0, 1, 1, 2, 2))
    } else if c == 0x1fb92 {
        rects_of(frac(1, 2, 0, 1, 1, 2, 4), frac(1, 2, 0, 0, 1, 1, 2))
    } else if c == 0x1fb94 {
        rects_of(frac(2, 1, 1, 0, 2, 1, 4), frac(2, 1, 0, 0, 1, 1, 2))
    } else if c == 0x1fb97 {
        rects_of(frac(1, 4, 0, 1, 1, 2, 4), frac(1, 4, 0, 3, 1, 4, 4))
    } else {
        Vec::new()
    }
}

fn frac(xdenom: i32, ydenom: i32, xb1: i32, yb1: i32, xb2: i32, yb2: i32, alpha_quarters: u8) -> (res: FracRect)
    ensures
        res == fr(xdenom, ydenom, xb1, yb1, xb2, yb2, alpha_quarters),
{
    FracRect { xdenom, ydenom, xb1, yb1, xb2, yb2, alpha_quarters }
}

/// A filled polygon given as fractions of the cell: its corners, in order,
/// each at `x / xdenom` of the cell's width and `y / ydenom` of its height,
/// filled with `alpha_quarters` quarters of full opacity.
#[derive(Clone, Debug)]
pub struct FracPolygon {
    pub xdenom: i32,
    pub ydenom: i32,
    pub points: Vec<(i32, i32)>,
    pub alpha_quarters: u8,
}

/// What a polygon is, its corners as a sequence.
pub struct PolygonView {
    pub xdenom: i32,
    pub ydenom: i32,
    pub points: Seq<(i32, i32)>,
    pub alpha_quarters: u8,
}

impl View for FracPolygon {
    type V = PolygonView;

    open spec fn view(&self) -> PolygonView {
        PolygonView { xdenom: self.xdenom, ydenom: self.ydenom, points: self.points@, alpha_quarters: self.alpha_quarters }
    }
}

pub open spec fn poly(xdenom: i32, ydenom: i32, points: Seq<(i32, i32)>, alpha_quarters: u8) -> PolygonView {
    PolygonView { xdenom, ydenom, points, alpha_quarters }
}

/// The corners of the four triangles of Geometric Shapes, from U+25E2, in a
/// 1 x 1 grid.
pub open spec fn triangle_corners(v: int) -> Seq<(i32, i32)> {
    if v == 0 {
        seq![(0i32, 1i32), (1, 0), (1, 1)]
    } else if v == 1 {
        seq![(0i32, 0i32), (1, 1), (0, 1)]
    } else if v == 2 {
        seq![(0i32, 0i32), (1, 0), (0, 1)]
    } else {
        seq![(0i32, 0i32), (1, 0), (1, 1)]
    }
}

/// The corners of the wedges of Symbols for Legacy Computing, from U+1FB3C,
/// in a 2 x 3 grid.
pub open spec fn wedge_corners(v: int) -> Seq<(i32, i32)> {
    if v == 0 {
        seq![(0i32, 2i32), (1, 3), (0, 3)]
    } else if v == 1 {
        seq![(0i32, 2i32), (2, 3), (0, 3)]
    } else if v == 2 {
        seq![(0i32, 1i32), (1, 3), (0, 3)]
    } else if v == 3 {
        seq![(0i32, 1i32), (2, 3), (0, 3)]
    } else if v == 4 {
        seq![(0i32, 0i32), (1, 3), (0, 3)]
    } else if v == 5 {
        seq![(0i32, 1i32), (1, 0), (2, 0), (2, 3), (0, 3)]
    } else if v == 6 {
        seq![(0i32, 1i32), (2, 0), (2, 3), (0, 3)]
    } else if v == 7 {
        seq![(0i32, 2i32), (1, 0), (2, 0), (2, 3), (0, 3)]
    } else if v == 8 {
        seq![(0i32, 2i32), (2, 0), (2, 3), (0, 3)]
    } else if v == 9 {
        seq![(0i32, 3i32), (1, 0), (2, 0), (2, 3)]
    } else if v == 10 {
        seq![(0i32, 2i32), (2, 1), (2, 3), (0, 3)]
    } else if v == 11 {
        seq![(1i32, 3i32), (2, 2), (2, 3)]
    } else if v == 12 {
        seq![(0i32, 3i32), (2, 2), (2, 3)]
    } else if v == 13 {
        seq![(1i32, 3i32), (2, 1), (2, 3)]
    } else if v == 14 {
        seq![(0i32, 3i32), (2, 1), (2, 3)]
    } else if v == 15 {
        seq![(1i32, 3i32), (2, 0), (2, 3)]
    } else if v == 16 {
        seq![(0i32, 0i32), (1, 0), (2, 1), (2, 3), (0, 3)]
    } else if v == 17 {
        seq![(0i32, 0i32), (2, 1), (2, 3), (0, 3)]
    } else if v == 18 {
        seq![(0i32, 0i32), (1, 0), (2, 2), (2, 3), (0, 3)]
    } else if v == 19 {
        seq![(0i32, 0i32), (2, 2), (2, 3), (0, 3)]
    } else if v == 20 {
        seq![(0i32, 0i32), (1, 0), (2, 3), (0, 3)]
    } else if v == 21 {
        seq![(0i32, 1i32), (2, 2), (2, 3), (0, 3)]
    } else if v == 22 {
        seq![(0i32, 0i32), (2, 0), (2, 3), (1, 3), (0, 2)]
    } else if v == 23 {
        seq![(0i32, 0i32), (2, 0), (2, 3), (0, 2)]
    } else if v == 24 {
        seq![(0i32, 0i32), (2, 0), (2, 3), (1, 3), (0, 1)]
    } else if v == 25 {
        seq![(0i32, 0i32), (2, 0), (2, 3), (0, 1)]
    } else if v == 26 {
        seq![(0i32, 0i32), (2, 0), (2, 3), (1, 3)]
    } else if v == 27 {
        seq![(0i32, 0i32), (1, 0), (0, 1)]
    } else if v == 28 {
        seq![(0i32, 0i32), (2, 0), (0, 1)]
    } else if v == 29 {
        seq![(0i32, 0i32), (1, 0), (0, 2)]
    } else if v == 30 {
        seq![(0i32, 0i32), (2, 0), (0, 2)]
    } else if v == 31 {
        seq![(0i32, 0i32), (1, 0), (0, 3)]
    } else if v == 32 {
        seq![(0i32, 0i32), (2, 0), (2, 1), (0, 2)]
    } else if v == 33 {
        seq![(0i32, 0i32), (2, 0), (2, 2), (1, 3), (0, 3)]
    } else if v == 34 {
        seq![(0i32, 0i32), (2, 0), (2, 2), (0, 3)]
    } else if v == 35 {
        seq![(0i32, 0i32), (2, 0), (2, 1), (1, 3), (0, 3)]
    } else if v == 36 {
        seq![(0i32, 0i32), (2, 0), (2, 1), (0, 3)]
    } else if v == 37 {
        seq![(0i32, 0i32), (2, 0), (1, 3), (0, 3)]
    } else if v == 38 {
        seq![(1i32, 0i32), (2, 0), (2, 1)]
    } else if v == 39 {
        seq![(0i32, 0i32), (2, 0), (2, 1)]
    } else if v == 40 {
        seq![(1i32, 0i32), (2, 0), (2, 2)]
    } else if v == 41 {
        seq![(0i32, 0i32), (2, 0), (2, 2)]
    } else if v == 42 {
        seq![(1i32, 0i32), (2, 0), (2, 3)]
    } else {
        seq![(0i32, 0i32), (2, 0), (2, 2), (0, 1)]
    }
}

/// The corners of the notched blocks and triangles from U+1FB68, in a 2 x 2
/// grid.
pub open spec fn notch_corners(v: int) -> Seq<(i32, i32)> {
    if v == 0 {
        seq![(0i32, 0i32), (2, 0), (2, 2), (0, 2), (1, 1)]
    } else if v == 1 {
        seq![(0i32, 0i32), (1, 1), (2, 0), (2, 2), (0, 2)]
    } else if v == 2 {
        seq![(0i32, 0i32), (2, 0), (1, 1), (2, 2), (0, 2)]
    } else if v == 3 {
        seq![(0i32, 0i32), (2, 0), (2, 2), (1, 1), (0, 2)]
    } else if v == 4 {
        seq![(0i32, 0i32), (1, 1), (0, 2)]
    } else if v == 5 {
        seq![(0i32, 0i32), (2, 0), (1, 1)]
    } else if v == 6 {
        seq![(1i32, 1i32), (2, 0), (2, 2)]
    } else {
        seq![(1i32, 1i32), (2, 2), (0, 2)]
    }
}

/// The corners of the diagonal halves and triangles from U+1FB9A, in a
/// 1 x 1 grid.
pub open spec fn diagonal_corners(v: int) -> Seq<(i32, i32)> {
    if v == 0 {
        seq![(0i32, 0i32), (1, 0), (0, 1), (1, 1)]
    } else if v == 1 {
        seq![(0i32, 0i32), (1, 1), (1, 0), (0, 1)]
    } else if v == 2 {
        seq![(0i32, 0i32), (1, 0), (0, 1)]
    } else if v == 3 {
        seq![(0i32, 0i32), (1, 0), (1, 1)]
    } else if v == 4 {
        seq![(0i32, 1i32), (1, 0), (1, 1)]
    } else {
        seq![(0i32, 0i32), (1, 1), (0, 1)]
    }
}

fn triangle_points(v: u32) -> (res: Vec<(i32, i32)>)
    requires
        v < 4,
    ensures
        res@ == triangle_corners(v as int),
{
    if v == 0 {
        vec![(0, 1), (1, 0), (1, 1)]
    } else if v == 1 {
        vec![(0, 0), (1, 1), (0, 1)]
    } else if v == 2 {
        vec![(0, 0), (1, 0), (0, 1)]
    } else {
        vec![(0, 0), (1, 0), (1, 1)]
    }
}

fn wedge_points(v: u32) -> (res: Vec<(i32, i32)>)
    requires
        v < 44,
    ensures
        res@ == wedge_corners(v as int),
{
    if v == 0 {
        vec![(0, 2), (1, 3), (0, 3)]
    } else if v == 1 {
        vec![(0, 2), (2, 3), (0, 3)]
    } else if v == 2 {
        vec![(0, 1), (1, 3), (0, 3)]
    } else if v == 3 {
        vec![(0, 1), (2, 3), (0, 3)]
    } else if v == 4 {
        vec![(0, 0), (1, 3), (0, 3)]
    } else if v == 5 {
        vec![(0, 1), (1, 0), (2, 0), (2, 3), (0, 3)]
    } else if v == 6 {
        vec![(0, 1), (2, 0), (2, 3), (0, 3)]
    } else if v == 7 {
        vec![(0, 2), (1, 0), (2, 0), (2, 3), (0, 3)]
    } else if v == 8 {
        vec![(0, 2), (2, 0), (2, 3), (0, 3)]
    } else if v == 9 {
        vec![(0, 3), (1, 0), (2, 0), (2, 3)]
    } else if v == 10 {
        vec![(0, 2), (2, 1), (2, 3), (0, 3)]
    } else if v == 11 {
        vec![(1, 3), (2, 2), (2, 3)]
    } else if v == 12 {
        vec![(0, 3), (2, 2), (2, 3)]
    } else if v == 13 {
        vec![(1, 3), (2, 1), (2, 3)]
    } else if v == 14 {
        vec![(0, 3), (2, 1), (2, 3)]
    } else if v == 15 {
        vec![(1, 3), (2, 0), (2, 3)]
    } else if v == 16 {
        vec![(0, 0), (1, 0), (2, 1), (2, 3), (0, 3)]
    } else if v == 17 {
        vec![(0, 0), (2, 1), (2, 3), (0, 3)]
    } else if v == 18 {
        vec![(0, 0), (1, 0), (2, 2), (2, 3), (0, 3)]
    } else if v == 19 {
        vec![(0, 0), (2, 2), (2, 3), (0, 3)]
    } else if v == 20 {
        vec![(0, 0), (1, 0), (2, 3), (0, 3)]
    } else if v == 21 {
        vec![(0, 1), (2, 2), (2, 3), (0, 3)]
    } else if v == 22 {
        vec![(0, 0), (2, 0), (2, 3), (1, 3), (0, 2)]
    } else if v == 23 {
        vec![(0, 0), (2, 0), (2, 3), (0, 2)]
    } else if v == 24 {
        vec![(0, 0), (2, 0), (2, 3), (1, 3), (0, 1)]
    } else if v == 25 {
        vec![(0, 0), (2, 0), (2, 3), (0, 1)]
    } else if v == 26 {
        vec![(0, 0), (2, 0), (2, 3), (1, 3)]
    } else if v == 27 {
        vec![(0, 0), (1, 0), (0, 1)]
    } else if v == 28 {
        vec![(0, 0), (2, 0), (0, 1)]
    } else if v == 29 {
        vec![(0, 0), (1, 0), (0, 2)]
    } else if v == 30 {
        vec![(0, 0), (2, 0), (0, 2)]
    } else if v == 31 {
        vec![(0, 0), (1, 0), (0, 3)]
    } else if v == 32 {
        vec![(0, 0), (2, 0), (2, 1), (0, 2)]
    } else if v == 33 {
        vec![(0, 0), (2, 0), (2, 2), (1, 3), (0, 3)]
    } else if v == 34 {
        vec![(0, 0), (2, 0), (2, 2), (0, 3)]
    } else if v == 35 {
        vec![(0, 0), (2, 0), (2, 1), (1, 3), (0, 3)]
    } else if v == 36 {
        vec![(0, 0), (2, 0), (2, 1), (0, 3)]
    } else if v == 37 {
        vec![(0, 0), (2, 0), (1, 3), (0, 3)]
    } else if v == 38 {
        vec![(1, 0), (2, 0), (2, 1)]
    } else if v == 39 {
        vec![(0, 0), (2, 0), (2, 1)]
    } else if v == 40 {
        vec![(1, 0), (2, 0), (2, 2)]
    } else if v == 41 {
        vec![(0, 0), (2, 0), (2, 2)]
    } else if v == 42 {
        vec![(1, 0), (2, 0), (2, 3)]
    } else {
        vec![(0, 0), (2, 0), (2, 2), (0, 1)]
    }
}

fn notch_points(v: u32) -> (res: Vec<(i32, i32)>)
    requires
        v < 8,
    ensures
        res@ == notch_corners(v as int),
{
    if v == 0 {
        vec![(0, 0), (2, 0), (2, 2), (0, 2), (1, 1)]
    } else if v == 1 {
        vec![(0, 0), (1, 1), (2, 0), (2, 2), (0, 2)]
    } else if v == 2 {
        vec![(0, 0), (2, 0), (1, 1), (2, 2), (0, 2)]
    } else if v == 3 {
        vec![(0, 0), (2, 0), (2, 2), (1, 1), (0, 2)]
    } else if v == 4 {
        vec![(0, 0), (1, 1), (0, 2)]
    } else if v == 5 {
        vec![(0, 0), (2, 0), (1, 1)]
    } else if v == 6 {
        vec![(1, 1), (2, 0), (2, 2)]
    } else {
        vec![(1, 1), (2, 2), (0, 2)]
    }
}

fn diagonal_points(v: u32) -> (res: Vec<(i32, i32)>)
    requires
        v < 6,
    ensures
        res@ == diagonal_corners(v as int),
{
    if v == 0 {
        vec![(0, 0), (1, 0), (0, 1), (1, 1)]
    } else if v == 1 {
        vec![(0, 0), (1, 1), (1, 0), (0, 1)]
    } else if v == 2 {
        vec![(0, 0), (1, 0), (0, 1)]
    } else if v == 3 {
        vec![(0, 0), (1, 0), (1, 1)]
    } else if v == 4 {
        vec![(0, 1), (1, 0), (1, 1)]
    } else {
        vec![(0, 0), (1, 1), (0, 1)]
    }
}
/// The polygon that draws character `c`: the triangles of Geometric Shapes,
/// and the wedges, notched blocks and diagonal halves of Symbols for Legacy
/// Computing (the last four of those at half opacity); the other characters
/// have none.
pub open spec fn polygon_shape(c: u32) -> Option<PolygonView> {
    if 0x25e2 <= c <= 0x25e5 {
        Some(poly(1, 1, triangle_corners(c - 0x25e2), 4))
    } else if 0x1fb3c <= c <= 0x1fb67 {
        Some(poly(2, 3, wedge_corners(c - 0x1fb3c), 4))
    } else if 0x1fb68 <= c <= 0x1fb6f {
        Some(poly(2, 2, notch_corners(c - 0x1fb68), 4))
    } else if 0x1fb9a <= c <= 0x1fb9f {
        Some(poly(1, 1, diagonal_corners(c - 0x1fb9a), if c >= 0x1fb9c { 2u8 } else { 4u8 }))
    } else {
        None
    }
}

/// The polygon that draws box character `c`, if it is drawn with one.
pub fn block_polygon(c: u32) -> (res: Option<FracPolygon>)
    requires
        box_char(c),
    ensures
        match res {
            Some(p) => polygon_shape(c) == Some(p@),
            None => polygon_shape(c) is None,
        },
{
    if 0x25e2 <= c && c <= 0x25e5 {
        Some(FracPolygon { xdenom: 1, ydenom: 1, points: triangle_points(c - 0x25e2), alpha_quarters: 4 })
    } else if 0x1fb3c <= c && c <= 0x1fb67 {
        Some(FracPolygon { xdenom: 2, ydenom: 3, points: wedge_points(c - 0x1fb3c), alpha_quarters: 4 })
    } else if 0x1fb68 <= c && c <= 0x1fb6f {
        Some(FracPolygon { xdenom: 2, ydenom: 2, points: notch_points(c - 0x1fb68), alpha_quarters: 4 })
    } else if 0x1fb9a <= c && c <= 0x1fb9f {
        let alpha_quarters: u8 = if c >= 0x1fb9c { 2 } else { 4 };
        Some(FracPolygon { xdenom: 1, ydenom: 1, points: diagonal_points(c - 0x1fb9a), alpha_quarters })
    } else {
        None
    }
}

/// The characters drawn with strokes of the pen rather than filled shapes.
#[derive(Copy, Clone, Debug, PartialEq, Eq, Structural)]
pub enum StrokeShape {
    /// A dashed line through the middle of the cell, across it or down it:
    /// its length cut in `segments` equal parts, each dash two parts long and
    /// each gap one.
    Dashed { vertical: bool, heavy: bool, segments: i32 },
    /// A light rounded corner joining the middle of two sides: `corner` 0
    /// joins the bottom and the right side, 1 the bottom and the left, 2 the
    /// top and the left, 3 the top and the right.
    Arc { corner: u32 },
    /// Light diagonals: from the top left to the bottom right corner, and
    /// from the top right to the bottom left.
    Diagonals { down_right: bool, down_left: bool },
    /// Light bent strokes from the middle of the left or right side to the
    /// middle of the top or bottom edge, one for each corner set.
    CornerLines { upper_left: bool, upper_right: bool, lower_left: bool, lower_right: bool },
    /// A light horizontal line with a light vertical stroke over the middle
    /// third of the cell.
    CrossedHorizontal,
}

/// The corners of the bent strokes of the characters from U+1FBA0: bit 1
/// upper left, 2 upper right, 4 lower left, 8 lower right.
pub open spec fn corner_map(v: int) -> u32 {
    if v == 0 {
        1
    } else if v == 1 {
        2
    } else if v == 2 {
        4
    } else if v == 3 {
        8
    } else if v == 4 {
        5
    } else if v == 5 {
        10
    } else if v == 6 {
        12
    } else if v == 7 {
        3
    } else if v == 8 {
        9
    } else if v == 9 {
        6
    } else if v == 10 {
        14
    } else if v == 11 {
        13
    } else if v == 12 {
        11
    } else if v == 13 {
        7
    } else {
        15
    }
}

/// The units a dashed line's length is cut in: eight for the triple dashes,
/// eleven for the quadruple ones, five for the double ones.
pub open spec fn dash_segments(v: u32) -> i32 {
    if v / 4 == 1 {
        8
    } else if v / 4 == 2 {
        11
    } else {
        5
    }
}

/// The strokes that draw character `c`: dashed lines (odd offsets from
/// U+2500 heavy, the second pair of each four vertical), arcs, diagonals, the
/// bent corner strokes and the crossed horizontal line; the other characters
/// have none.
pub open spec fn stroke_shape(c: u32) -> Option<StrokeShape> {
    if (0x2504 <= c <= 0x250b) || (0x254c <= c <= 0x254f) {
        let v = (c - 0x2500) as u32;
        Some(StrokeShape::Dashed { vertical: (v / 2) % 2 == 1, heavy: v % 2 == 1, segments: dash_segments(v) })
    } else if 0x256d <= c <= 0x2570 {
        Some(StrokeShape::Arc { corner: (c - 0x256d) as u32 })
    } else if 0x2571 <= c <= 0x2573 {
        Some(StrokeShape::Diagonals { down_right: c != 0x2571, down_left: c != 0x2572 })
    } else if 0x1fba0 <= c <= 0x1fbae {
        let m = corner_map(c - 0x1fba0);
        Some(StrokeShape::CornerLines {
            upper_left: m % 2 == 1,
            upper_right: (m / 2) % 2 == 1,
            lower_left: (m / 4) % 2 == 1,
            lower_right: (m / 8) % 2 == 1,
        })
    } else if c == 0x1fbaf {
        Some(StrokeShape::CrossedHorizontal)
    } else {
        None
    }
}

fn corner_bits(v: u32) -> (res: u32)
    requires
        v < 15,
    ensures
        res == corner_map(v as int),
{
    let map: [u32; 15] = [1, 2, 4, 8, 5, 10, 12, 3, 9, 6, 14, 13, 11, 7, 15];
    proof {
        assert(map@ =~= seq![1u32, 2, 4, 8, 5, 10, 12, 3, 9, 6, 14, 13, 11, 7, 15]);
    }
    map[v as usize]
}

/// The strokes that draw box character `c`, if it is drawn with strokes.
pub fn box_stroke(c: u32) -> (res: Option<StrokeShape>)
    requires
        box_char(c),
    ensures
        res == stroke_shape(c),
{
    if (0x2504 <= c && c <= 0x250b) || (0x254c <= c && c <= 0x254f) {
        let v = c - 0x2500;
        let segments: i32 = if v / 4 == 1 {
            8
        } else if v / 4 == 2 {
            11
        } else {
            5
        };
        Some(StrokeShape::Dashed { vertical: (v / 2) % 2 == 1, heavy: v % 2 == 1, segments })
    } else if 0x256d <= c && c <= 0x2570 {
        Some(StrokeShape::Arc { corner: c - 0x256d })
    } else if 0x2571 <= c && c <= 0x2573 {
        Some(StrokeShape::Diagonals { down_right: c != 0x2571, down_left: c != 0x2572 })
    } else if 0x1fba0 <= c && c <= 0x1fbae {
        let m = corner_bits(c - 0x1fba0);
        Some(StrokeShape::CornerLines {
            upper_left: m % 2 == 1,
            upper_right: (m / 2) % 2 == 1,
            lower_left: (m / 4) % 2 == 1,
            lower_right: (m / 8) % 2 == 1,
        })
    } else if c == 0x1fbaf {
        Some(StrokeShape::CrossedHorizontal)
    } else {
        None
    }
}

/// The repeating 4 x 4 masks some characters are filled through: a
/// checkerboard of 2 x 2 squares starting filled or starting empty, and
/// one-pixel diagonal hatching falling or rising from left to right.
#[derive(Copy, Clone, Debug, PartialEq, Eq, Structural)]
pub enum FillPattern {
    Checkerboard,
    CheckerboardReverse,
    HatchingFalling,
    HatchingRising,
}

/// The pattern that fills character `c`, if it is filled through one.
pub open spec fn pattern_shape(c: u32) -> Option<FillPattern> {
    if c == 0x1fb95 {
        Some(FillPattern::Checkerboard)
    } else if c == 0x1fb96 {
        Some(FillPattern::CheckerboardReverse)
    } else if c == 0x1fb98 {
        Some(FillPattern::HatchingFalling)
    } else if c == 0x1fb99 {
        Some(FillPattern::HatchingRising)
    } else {
        None
    }
}

/// The pattern that fills box character `c`, if it is filled through one.
pub fn box_pattern(c: u32) -> (res: Option<FillPattern>)
    requires
        box_char(c),
    ensures
        res == pattern_shape(c),
{
    if c == 0x1fb95 {
        Some(FillPattern::Checkerboard)
    } else if c == 0x1fb96 {
        Some(FillPattern::CheckerboardReverse)
    } else if c == 0x1fb98 {
        Some(FillPattern::HatchingFalling)
    } else if c == 0x1fb99 {
        Some(FillPattern::HatchingRising)
    } else {
        None
    }
}

/// The mask of a pattern, row by row: whether each of its 4 x 4 pixels is
/// filled.
pub open spec fn pattern_mask(p: FillPattern, row: int, col: int) -> bool {
    match p {
        FillPattern::Checkerboard => (row < 2) == (col < 2),
        FillPattern::CheckerboardReverse => (row < 2) != (col < 2),
        FillPattern::HatchingFalling => row == col,
        FillPattern::HatchingRising => row + col == 3,
    }
}

/// The alpha bytes of a pattern's mask, row by row (0xff filled, 0 empty).
pub fn pattern_bytes(p: FillPattern) -> (res: Vec<u8>)
    ensures
        res@.len() == 16,
        forall|i: int| 0 <= i < 16 ==> #[trigger] res@[i] == if pattern_mask(p, i / 4, i % 4) { 0xffu8 } else { 0u8 },
{
    let mut res: Vec<u8> = Vec::new();
    let mut i: usize = 0;
    while i < 16
        invariant
            i <= 16,
            res@.len() == i,
            forall|j: int| 0 <= j < i ==> #[trigger] res@[j] == if pattern_mask(p, j / 4, j % 4) { 0xffu8 } else { 0u8 },
        decreases 16 - i,
    {
        let row = i / 4;
        let col = i % 4;
        let filled = match p {
            FillPattern::Checkerboard => (row < 2) == (col < 2),
            FillPattern::CheckerboardReverse => (row < 2) != (col < 2),
            FillPattern::HatchingFalling => row == col,
            FillPattern::HatchingRising => row + col == 3,
        };
        res.push(if filled { 0xff } else { 0 });
        i = i + 1;
    }
    res
}

/// The characters drawn from the 5 x 5 parts of the line table.
pub open spec fn line_char(c: u32) -> bool {
    (0x2500 <= c <= 0x2503) || (0x250c <= c <= 0x254b) || (0x2550 <= c <= 0x256c) || (0x2574 <= c <= 0x257f)
}

/// In how many ways character `c` is drawn: from the line parts, with
/// rectangles, with a polygon, with strokes, through a pattern.
pub open spec fn ways_drawn(c: u32) -> int {
    (if line_char(c) { 1int } else { 0int }) + (if block_shape(c).len() > 0 { 1int } else { 0int }) + (if polygon_shape(
        c,
    ) is Some {
        1int
    } else {
        0int
    }) + (if stroke_shape(c) is Some { 1int } else { 0int }) + (if pattern_shape(c) is Some { 1int } else { 0int })
}

proof fn lemma_sextants_nonempty(bits: u32, k: nat, j: u32)
    requires
        k + j < 6,
        (bits >> j) & 1 == 1,
    ensures
        sextant_rects(bits, k).len() > 0,
    decreases j,
{
    if bits & 1 != 1 {
        if j == 0 {
            assert(bits >> 0u32 == bits) by (bit_vector);
        } else {
            assert((bits >> 1u32) >> ((j - 1) as u32) == bits >> j) by (bit_vector)
                requires
                    0 < j < 6,
            ;
            lemma_sextants_nonempty(bits >> 1, k + 1, (j - 1) as u32);
        }
    }
}

/// Every box character is drawn in exactly one way, except U+1FB93, which
/// no character is assigned to and which draws nothing.
pub proof fn lemma_drawn_once(c: u32)
    requires
        box_char(c),
    ensures
        ways_drawn(c) == if c == 0x1fb93 { 0int } else { 1int },
{
    if 0x1fb00 <= c <= 0x1fb3b {
        let b = sextant_bits(c);
        assert(1 <= b <= 62);
        assert(b != 0 && b < 64 ==> (b >> 0u32) & 1 == 1 || (b >> 1u32) & 1 == 1 || (b >> 2u32) & 1 == 1
            || (b >> 3u32) & 1 == 1 || (b >> 4u32) & 1 == 1 || (b >> 5u32) & 1 == 1) by (bit_vector);
        if (b >> 0u32) & 1 == 1 {
            lemma_sextants_nonempty(b, 0, 0);
        } else if (b >> 1u32) & 1 == 1 {
            lemma_sextants_nonempty(b, 0, 1);
        } else if (b >> 2u32) & 1 == 1 {
            lemma_sextants_nonempty(b, 0, 2);
        } else if (b >> 3u32) & 1 == 1 {
            lemma_sextants_nonempty(b, 0, 3);
        } else if (b >> 4u32) & 1 == 1 {
            lemma_sextants_nonempty(b, 0, 4);
        } else {
            lemma_sextants_nonempty(b, 0, 5);
        }
    }
}

/// The strokes of each character drawn with them, as its Unicode name
/// describes it: the light and heavy, horizontal and vertical triple,
/// quadruple and double dashes; the arcs down and right, down and left, up
/// and left, up and right; the diagonals from the upper right, from the upper
/// left, and crossed; the bent lines between the middles of the sides and the
/// centres of the top and bottom edges; the horizontal line with a vertical
/// stroke.
pub proof fn lemma_stroke_table()
    ensures
        stroke_shape(0x2504) == Some(StrokeShape::Dashed { vertical: false, heavy: false, segments: 8 }),
        stroke_shape(0x2505) == Some(StrokeShape::Dashed { vertical: false, heavy: true, segments: 8 }),
        stroke_shape(0x2506) == Some(StrokeShape::Dashed { vertical: true, heavy: false, segments: 8 }),
        stroke_shape(0x2507) == Some(StrokeShape::Dashed { vertical: true, heavy: true, segments: 8 }),
        stroke_shape(0x2508) == Some(StrokeShape::Dashed { vertical: false, heavy: false, segments: 11 }),
        stroke_shape(0x2509) == Some(StrokeShape::Dashed { vertical: false, heavy: true, segments: 11 }),
        stroke_shape(0x250a) == Some(StrokeShape::Dashed { vertical: true, heavy: false, segments: 11 }),
        stroke_shape(0x250b) == Some(StrokeShape::Dashed { vertical: true, heavy: true, segments: 11 }),
        stroke_shape(0x254c) == Some(StrokeShape::Dashed { vertical: false, heavy: false, segments: 5 }),
        stroke_shape(0x254d) == Some(StrokeShape::Dashed { vertical: false, heavy: true, segments: 5 }),
        stroke_shape(0x254e) == Some(StrokeShape::Dashed { vertical: true, heavy: false, segments: 5 }),
        stroke_shape(0x254f) == Some(StrokeShape::Dashed { vertical: true, heavy: true, segments: 5 }),
        stroke_shape(0x256d) == Some(StrokeShape::Arc { corner: 0 }),
        stroke_shape(0x256e) == Some(StrokeShape::Arc { corner: 1 }),
        stroke_shape(0x256f) == Some(StrokeShape::Arc { corner: 2 }),
        stroke_shape(0x2570) == Some(StrokeShape::Arc { corner: 3 }),
        stroke_shape(0x2571) == Some(StrokeShape::Diagonals { down_right: false, down_left: true }),
        stroke_shape(0x2572) == Some(StrokeShape::Diagonals { down_right: true, down_left: false }),
        stroke_shape(0x2573) == Some(StrokeShape::Diagonals { down_right: true, down_left: true }),
        stroke_shape(0x1fba0) == Some(StrokeShape::CornerLines { upper_left: true, upper_right: false, lower_left: false, lower_right: false }),
        stroke_shape(0x1fba1) == Some(StrokeShape::CornerLines { upper_left: false, upper_right: true, lower_left: false, lower_right: false }),
        stroke_shape(0x1fba2) == Some(StrokeShape::CornerLines { upper_left: false, upper_right: false, lower_left: true, lower_right: false }),
        stroke_shape(0x1fba3) == Some(StrokeShape::CornerLines { upper_left: false, upper_right: false, lower_left: false, lower_right: true }),
        stroke_shape(0x1fba4) == Some(StrokeShape::CornerLines { upper_left: true, upper_right: false, lower_left: true, lower_right: false }),
        stroke_shape(0x1fba5) == Some(StrokeShape::CornerLines { upper_left: false, upper_right: true, lower_left: false, lower_right: true }),
        stroke_shape(0x1fba6) == Some(StrokeShape::CornerLines { upper_left: false, upper_right: false, lower_left: true, lower_right: true }),
        stroke_shape(0x1fba7) == Some(StrokeShape::CornerLines { upper_left: true, upper_right: true, lower_left: false, lower_right: false }),
        stroke_shape(0x1fba8) == Some(StrokeShape::CornerLines { upper_left: true, upper_right: false, lower_left: false, lower_right: true }),
        stroke_shape(0x1fba9) == Some(StrokeShape::CornerLines { upper_left: false, upper_right: true, lower_left: true, lower_right: false }),
        stroke_shape(0x1fbaa) == Some(StrokeShape::CornerLines { upper_left: false, upper_right: true, lower_left: true, lower_right: true }),
        stroke_shape(0x1fbab) == Some(StrokeShape::CornerLines { upper_left: true, upper_right: false, lower_left: true, lower_right: true }),
        stroke_shape(0x1fbac) == Some(StrokeShape::CornerLines { upper_left: true, upper_right: true, lower_left: false, lower_right: true }),
        stroke_shape(0x1fbad) == Some(StrokeShape::CornerLines { upper_left: true, upper_right: true, lower_left: true, lower_right: false }),
        stroke_shape(0x1fbae) == Some(StrokeShape::CornerLines { upper_left: true, upper_right: true, lower_left: true, lower_right: true }),
        stroke_shape(0x1fbaf) == Some(StrokeShape::CrossedHorizontal),
{
}

/// The rectangles of each block element and legacy computing block, as its
/// Unicode name describes it: the upper half, the lower and left eighths,
/// the right half, the light, medium and dark shades, the upper and right
/// eighths and the quadrants; the vertical and horizontal one-eighth bars,
/// the corner and comb-like eighths, the upper and right blocks of two,
/// three, five, six and seven eighths, and the half and full blocks at half
/// opacity.
#[verifier::rlimit(100)]
pub proof fn lemma_block_table()
    ensures
        block_shape(0x2580) == seq![fr(1, 2, 0, 0, 1, 1, 4)],
        block_shape(0x2581) == seq![fr(1, 8, 0, 7, 1, 8, 4)],
        block_shape(0x2582) == seq![fr(1, 8, 0, 6, 1, 8, 4)],
        block_shape(0x2583) == seq![fr(1, 8, 0, 5, 1, 8, 4)],
        block_shape(0x2584) == seq![fr(1, 8, 0, 4, 1, 8, 4)],
        block_shape(0x2585) == seq![fr(1, 8, 0, 3, 1, 8, 4)],
        block_shape(0x2586) == seq![fr(1, 8, 0, 2, 1, 8, 4)],
        block_shape(0x2587) == seq![fr(1, 8, 0, 1, 1, 8, 4)],
        block_shape(0x2588) == seq![fr(8, 1, 0, 0, 8, 1, 4)],
        block_shape(0x2589) == seq![fr(8, 1, 0, 0, 7, 1, 4)],
        block_shape(0x258a) == seq![fr(8, 1, 0, 0, 6, 1, 4)],
        block_shape(0x258b) == seq![fr(8, 1, 0, 0, 5, 1, 4)],
        block_shape(0x258c) == seq![fr(8, 1, 0, 0, 4, 1, 4)],
        block_shape(0x258d) == seq![fr(8, 1, 0, 0, 3, 1, 4)],
        block_shape(0x258e) == seq![fr(8, 1, 0, 0, 2, 1, 4)],
        block_shape(0x258f) == seq![fr(8, 1, 0, 0, 1, 1, 4)],
        block_shape(0x2590) == seq![fr(2, 1, 1, 0, 2, 1, 4)],
        block_shape(0x2591) == seq![fr(1, 1, 0, 0, 1, 1, 1)],
        block_shape(0x2592) == seq![fr(1, 1, 0, 0, 1, 1, 2)],
        block_shape(0x2593) == seq![fr(1, 1, 0, 0, 1, 1, 3)],
        block_shape(0x2594) == seq![fr(1, 8, 0, 0, 1, 1, 4)],
        block_shape(0x2595) == seq![fr(8, 1, 7, 0, 8, 1, 4)],
        block_shape(0x2596) == seq![fr(2, 2, 0, 1, 1, 2, 4)],
        block_shape(0x2597) == seq![fr(2, 2, 1, 1, 2, 2, 4)],
        block_shape(0x2598) == seq![fr(2, 2, 0, 0, 1, 1, 4)],
        block_shape(0x2599) == seq![fr(2, 2, 0, 0, 1, 1, 4), fr(2, 2, 0, 1, 2, 2, 4)],
        block_shape(0x259a) == seq![fr(2, 2, 0, 0, 1, 1, 4), fr(2, 2, 1, 1, 2, 2, 4)],
        block_shape(0x259b) == seq![fr(2, 2, 0, 0, 2, 1, 4), fr(2, 2, 0, 1, 1, 2, 4)],
        block_shape(0x259c) == seq![fr(2, 2, 0, 0, 2, 1, 4), fr(2, 2, 1, 1, 2, 2, 4)],
        block_shape(0x259d) == seq![fr(2, 2, 1, 0, 2, 1, 4)],
        block_shape(0x259e) == seq![fr(2, 2, 1, 0, 2, 1, 4), fr(2, 2, 0, 1, 1, 2, 4)],
        block_shape(0x259f) == seq![fr(2, 2, 1, 0, 2, 1, 4), fr(2, 2, 0, 1, 2, 2, 4)],
        block_shape(0x1fb70) == seq![fr(8, 1, 1, 0, 2, 1, 4)],
        block_shape(0x1fb71) == seq![fr(8, 1, 2, 0, 3, 1, 4)],
        block_shape(0x1fb72) == seq![fr(8, 1, 3, 0, 4, 1, 4)],
        block_shape(0x1fb73) == seq![fr(8, 1, 4, 0, 5, 1, 4)],
        block_shape(0x1fb74) == seq![fr(8, 1, 5, 0, 6, 1, 4)],
        block_shape(0x1fb75) == seq![fr(8, 1, 6, 0, 7, 1, 4)],
        block_shape(0x1fb76) == seq![fr(1, 8, 0, 1, 1, 2, 4)],
        block_shape(0x1fb77) == seq![fr(1, 8, 0, 2, 1, 3, 4)],
        block_shape(0x1fb78) == seq![fr(1, 8, 0, 3, 1, 4, 4)],
        block_shape(0x1fb79) == seq![fr(1, 8, 0, 4, 1, 5, 4)],
        block_shape(0x1fb7a) == seq![fr(1, 8, 0, 5, 1, 6, 4)],
        block_shape(0x1fb7b) == seq![fr(1, 8, 0, 6, 1, 7, 4)],
        block_shape(0x1fb7c) == seq![fr(1, 8, 0, 7, 1, 8, 4), fr(8, 1, 0, 0, 1, 1, 4)],
        block_shape(0x1fb7d) == seq![fr(1, 8, 0, 0, 1, 1, 4), fr(8, 1, 0, 0, 1, 1, 4)],
        block_shape(0x1fb7e) == seq![fr(1, 8, 0, 0, 1, 1, 4), fr(8, 1, 7, 0, 8, 1, 4)],
        block_shape(0x1fb7f) == seq![fr(1, 8, 0, 7, 1, 8, 4), fr(8, 1, 7, 0, 8, 1, 4)],
        block_shape(0x1fb80) == seq![fr(1, 8, 0, 0, 1, 1, 4), fr(1, 8, 0, 7, 1, 8, 4)],
        block_shape(0x1fb81) == seq![fr(1, 8, 0, 0, 1, 1, 4), fr(1, 8, 0, 2, 1, 3, 4), fr(1, 8, 0, 4, 1, 5, 4), fr(1, 8, 0, 7, 1, 8, 4)],
        block_shape(0x1fb82) == seq![fr(1, 8, 0, 0, 1, 2, 4)],
        block_shape(0x1fb83) == seq![fr(1, 8, 0, 0, 1, 3, 4)],
        block_shape(0x1fb84) == seq![fr(1, 8, 0, 0, 1, 5, 4)],
        block_shape(0x1fb85) == seq![fr(1, 8, 0, 0, 1, 6, 4)],
        block_shape(0x1fb86) == seq![fr(1, 8, 0, 0, 1, 7, 4)],
        block_shape(0x1fb87) == seq![fr(8, 1, 6, 0, 8, 1, 4)],
        block_shape(0x1fb88) == seq![fr(8, 1, 5, 0, 8, 1, 4)],
        block_shape(0x1fb89) == seq![fr(8, 1, 3, 0, 8, 1, 4)],
        block_shape(0x1fb8a) == seq![fr(8, 1, 2, 0, 8, 1, 4)],
        block_shape(0x1fb8b) == seq![fr(8, 1, 1, 0, 8, 1, 4)],
        block_shape(0x1fb8c) == seq![fr(2, 1, 0, 0, 1, 1, 2)],
        block_shape(0x1fb8d) == seq![fr(2, 1, 1, 0, 2, 1, 2)],
        block_shape(0x1fb8e) == seq![fr(1, 2, 0, 0, 1, 1, 2)],
        block_shape(0x1fb8f) == seq![fr(1, 2, 0, 1, 1, 2, 2)],
        block_shape(0x1fb90) == seq![fr(1, 1, 0, 0, 1, 1, 2)],
        block_shape(0x1fb91) == seq![fr(1, 2, 0, 0, 1, 1, 4), fr(1, 2, 0, 1, 1, 2, 2)],
        block_shape(0x1fb92) == seq![fr(1, 2, 0, 1, 1, 2, 4), fr(1, 2, 0, 0, 1, 1, 2)],
        block_shape(0x1fb94) == seq![fr(2, 1, 1, 0, 2, 1, 4), fr(2, 1, 0, 0, 1, 1, 2)],
        block_shape(0x1fb97) == seq![fr(1, 4, 0, 1, 1, 2, 4), fr(1, 4, 0, 3, 1, 4, 4)],
{
}

/// The polygon of each character drawn with one: the black triangles of
/// Geometric Shapes, the wedges and notched shapes of Symbols for Legacy
/// Computing in their 2 x 3 and 2 x 2 grids, and its diagonal halves and
/// triangles, the last four of them at half opacity.
#[verifier::rlimit(100)]
pub proof fn lemma_polygon_table()
    ensures
        polygon_shape(0x25e2) == Some(poly(1, 1, seq![(0i32, 1i32), (1, 0), (1, 1)], 4)),
        polygon_shape(0x25e3) == Some(poly(1, 1, seq![(0i32, 0i32), (1, 1), (0, 1)], 4)),
        polygon_shape(0x25e4) == Some(poly(1, 1, seq![(0i32, 0i32), (1, 0), (0, 1)], 4)),
        polygon_shape(0x25e5) == Some(poly(1, 1, seq![(0i32, 0i32), (1, 0), (1, 1)], 4)),
        polygon_shape(0x1fb3c) == Some(poly(2, 3, seq![(0i32, 2i32), (1, 3), (0, 3)], 4)),
        polygon_shape(0x1fb3d) == Some(poly(2, 3, seq![(0i32, 2i32), (2, 3), (0, 3)], 4)),
        polygon_shape(0x1fb3e) == Some(poly(2, 3, seq![(0i32, 1i32), (1, 3), (0, 3)], 4)),
        polygon_shape(0x1fb3f) == Some(poly(2, 3, seq![(0i32, 1i32), (2, 3), (0, 3)], 4)),
        polygon_shape(0x1fb40) == Some(poly(2, 3, seq![(0i32, 0i32), (1, 3), (0, 3)], 4)),
        polygon_shape(0x1fb41) == Some(poly(2, 3, seq![(0i32, 1i32), (1, 0), (2, 0), (2, 3), (0, 3)], 4)),
        polygon_shape(0x1fb42) == Some(poly(2, 3, seq![(0i32, 1i32), (2, 0), (2, 3), (0, 3)], 4)),
        polygon_shape(0x1fb43) == Some(poly(2, 3, seq![(0i32, 2i32), (1, 0), (2, 0), (2, 3), (0, 3)], 4)),
        polygon_shape(0x1fb44) == Some(poly(2, 3, seq![(0i32, 2i32), (2, 0), (2, 3), (0, 3)], 4)),
        polygon_shape(0x1fb45) == Some(poly(2, 3, seq![(0i32, 3i32), (1, 0), (2, 0), (2, 3)], 4)),
        polygon_shape(0x1fb46) == Some(poly(2, 3, seq![(0i32, 2i32), (2, 1), (2, 3), (0, 3)], 4)),
        polygon_shape(0x1fb47) == Some(poly(2, 3, seq![(1i32, 3i32), (2, 2), (2, 3)], 4)),
        polygon_shape(0x1fb48) == Some(poly(2, 3, seq![(0i32, 3i32), (2, 2), (2, 3)], 4)),
        polygon_shape(0x1fb49) == Some(poly(2, 3, seq![(1i32, 3i32), (2, 1), (2, 3)], 4)),
        polygon_shape(0x1fb4a) == Some(poly(2, 3, seq![(0i32, 3i32), (2, 1), (2, 3)], 4)),
        polygon_shape(0x1fb4b) == Some(poly(2, 3, seq![(1i32, 3i32), (2, 0), (2, 3)], 4)),
        polygon_shape(0x1fb4c) == Some(poly(2, 3, seq![(0i32, 0i32), (1, 0), (2, 1), (2, 3), (0, 3)], 4)),
        polygon_shape(0x1fb4d) == Some(poly(2, 3, seq![(0i32, 0i32), (2, 1), (2, 3), (0, 3)], 4)),
        polygon_shape(0x1fb4e) == Some(poly(2, 3, seq![(0i32, 0i32), (1, 0), (2, 2), (2, 3), (0, 3)], 4)),
        polygon_shape(0x1fb4f) == Some(poly(2, 3, seq![(0i32, 0i32), (2, 2), (2, 3), (0, 3)], 4)),
        polygon_shape(0x1fb50) == Some(poly(2, 3, seq![(0i32, 0i32), (1, 0), (2, 3), (0, 3)], 4)),
        polygon_shape(0x1fb51) == Some(poly(2, 3, seq![(0i32, 1i32), (2, 2), (2, 3), (0, 3)], 4)),
        polygon_shape(0x1fb52) == Some(poly(2, 3, seq![(0i32, 0i32), (2, 0), (2, 3), (1, 3), (0, 2)], 4)),
        polygon_shape(0x1fb53) == Some(poly(2, 3, seq![(0i32, 0i32), (2, 0), (2, 3), (0, 2)], 4)),
        polygon_shape(0x1fb54) == Some(poly(2, 3, seq![(0i32, 0i32), (2, 0), (2, 3), (1, 3), (0, 1)], 4)),
        polygon_shape(0x1fb55) == Some(poly(2, 3, seq![(0i32, 0i32), (2, 0), (2, 3), (0, 1)], 4)),
        polygon_shape(0x1fb56) == Some(poly(2, 3, seq![(0i32, 0i32), (2, 0), (2, 3), (1, 3)], 4)),
        polygon_shape(0x1fb57) == Some(poly(2, 3, seq![(0i32, 0i32), (1, 0), (0, 1)], 4)),
        polygon_shape(0x1fb58) == Some(poly(2, 3, seq![(0i32, 0i32), (2, 0), (0, 1)], 4)),
        polygon_shape(0x1fb59) == Some(poly(2, 3, seq![(0i32, 0i32), (1, 0), (0, 2)], 4)),
        polygon_shape(0x1fb5a) == Some(poly(2, 3, seq![(0i32, 0i32), (2, 0), (0, 2)], 4)),
        polygon_shape(0x1fb5b) == Some(poly(2, 3, seq![(0i32, 0i32), (1, 0), (0, 3)], 4)),
        polygon_shape(0x1fb5c) == Some(poly(2, 3, seq![(0i32, 0i32), (2, 0), (2, 1), (0, 2)], 4)),
        polygon_shape(0x1fb5d) == Some(poly(2, 3, seq![(0i32, 0i32), (2, 0), (2, 2), (1, 3), (0, 3)], 4)),
        polygon_shape(0x1fb5e) == Some(poly(2, 3, seq![(0i32, 0i32), (2, 0), (2, 2), (0, 3)], 4)),
        polygon_shape(0x1fb5f) == Some(poly(2, 3, seq![(0i32, 0i32), (2, 0), (2, 1), (1, 3), (0, 3)], 4)),
        polygon_shape(0x1fb60) == Some(poly(2, 3, seq![(0i32, 0i32), (2, 0), (2, 1), (0, 3)], 4)),
        polygon_shape(0x1fb61) == Some(poly(2, 3, seq![(0i32, 0i32), (2, 0), (1, 3), (0, 3)], 4)),
        polygon_shape(0x1fb62) == Some(poly(2, 3, seq![(1i32, 0i32), (2, 0), (2, 1)], 4)),
        polygon_shape(0x1fb63) == Some(poly(2, 3, seq![(0i32, 0i32), (2, 0), (2, 1)], 4)),
        polygon_shape(0x1fb64) == Some(poly(2, 3, seq![(1i32, 0i32), (2, 0), (2, 2)], 4)),
        polygon_shape(0x1fb65) == Some(poly(2, 3, seq![(0i32, 0i32), (2, 0), (2, 2)], 4)),
        polygon_shape(0x1fb66) == Some(poly(2, 3, seq![(1i32, 0i32), (2, 0), (2, 3)], 4)),
        polygon_shape(0x1fb67) == Some(poly(2, 3, seq![(0i32, 0i32), (2, 0), (2, 2), (0, 1)], 4)),
        polygon_shape(0x1fb68) == Some(poly(2, 2, seq![(0i32, 0i32), (2, 0), (2, 2), (0, 2), (1, 1)], 4)),
        polygon_shape(0x1fb69) == Some(poly(2, 2, seq![(0i32, 0i32), (1, 1), (2, 0), (2, 2), (0, 2)], 4)),
        polygon_shape(0x1fb6a) == Some(poly(2, 2, seq![(0i32, 0i32), (2, 0), (1, 1), (2, 2), (0, 2)], 4)),
        polygon_shape(0x1fb6b) == Some(poly(2, 2, seq![(0i32, 0i32), (2, 0), (2, 2), (1, 1), (0, 2)], 4)),
        polygon_shape(0x1fb6c) == Some(poly(2, 2, seq![(0i32, 0i32), (1, 1), (0, 2)], 4)),
        polygon_shape(0x1fb6d) == Some(poly(2, 2, seq![(0i32, 0i32), (2, 0), (1, 1)], 4)),
        polygon_shape(0x1fb6e) == Some(poly(2, 2, seq![(1i32, 1i32), (2, 0), (2, 2)], 4)),
        polygon_shape(0x1fb6f) == Some(poly(2, 2, seq![(1i32, 1i32), (2, 2), (0, 2)], 4)),
        polygon_shape(0x1fb9a) == Some(poly(1, 1, seq![(0i32, 0i32), (1, 0), (0, 1), (1, 1)], 4)),
        polygon_shape(0x1fb9b) == Some(poly(1, 1, seq![(0i32, 0i32), (1, 1), (1, 0), (0, 1)], 4)),
        polygon_shape(0x1fb9c) == Some(poly(1, 1, seq![(0i32, 0i32), (1, 0), (0, 1)], 2)),
        polygon_shape(0x1fb9d) == Some(poly(1, 1, seq![(0i32, 0i32), (1, 0), (1, 1)], 2)),
        polygon_shape(0x1fb9e) == Some(poly(1, 1, seq![(0i32, 1i32), (1, 0), (1, 1)], 2)),
        polygon_shape(0x1fb9f) == Some(poly(1, 1, seq![(0i32, 0i32), (1, 1), (0, 1)], 2)),
{
}

/// Sextant characters are numbered by their patterns (bit `k` for part `k`)
/// in increasing order, leaving out the empty and the full pattern and the
/// left and right halves (patterns 21 and 42), which are block elements.
pub proof fn lemma_sextant_numbering(c: u32)
    requires
        0x1fb00 <= c <= 0x1fb3b,
    ensures
        1 <= sextant_bits(c) <= 62,
        sextant_bits(c) != 21 && sextant_bits(c) != 42,
        c < 0x1fb3b ==> sextant_bits(c) < sextant_bits((c + 1) as u32),
        c == 0x1fb00 ==> sextant_bits(c) == 1,
        c == 0x1fb3b ==> sextant_bits(c) == 62,
{
}

/// The patterns of the fill characters: U+1FB95 the checkerboard, U+1FB96
/// its inverse, U+1FB98 and U+1FB99 the diagonal hatchings from upper left to
/// lower right and from upper right to lower left.  The inverse checkerboard
/// fills exactly what the checkerboard leaves, each hatching is the other
/// mirrored, and the checkerboard fills the upper left pixel.
pub proof fn lemma_pattern_table(row: int, col: int)
    requires
        0 <= row < 4 && 0 <= col < 4,
    ensures
        pattern_shape(0x1fb95) == Some(FillPattern::Checkerboard),
        pattern_shape(0x1fb96) == Some(FillPattern::CheckerboardReverse),
        pattern_shape(0x1fb98) == Some(FillPattern::HatchingFalling),
        pattern_shape(0x1fb99) == Some(FillPattern::HatchingRising),
        pattern_mask(FillPattern::CheckerboardReverse, row, col) == !pattern_mask(FillPattern::Checkerboard, row, col),
        pattern_mask(FillPattern::HatchingRising, row, col) == pattern_mask(FillPattern::HatchingFalling, row, 3 - col),
        pattern_mask(FillPattern::HatchingFalling, row, col) == (row == col),
        pattern_mask(FillPattern::Checkerboard, 0, 0) && pattern_mask(FillPattern::Checkerboard, 0, 1)
            && !pattern_mask(FillPattern::Checkerboard, 0, 2) && !pattern_mask(FillPattern::Checkerboard, 2, 0)
            && pattern_mask(FillPattern::Checkerboard, 2, 2),
        pattern_mask(FillPattern::Checkerboard, row, col) == pattern_mask(FillPattern::Checkerboard, row / 2 * 2, col / 2 * 2),
{
}

/// The font style a text attribute selects: bit 1 of the result for bold,
/// bit 2 for italic (attribute bits 2 and 4).
pub fn attr_style(attr: u32) -> (res: usize)
    ensures
        res == (if attr & 2 != 0 { 1usize } else { 0usize }) + (if attr & 4 != 0 { 2usize } else { 0usize }),
{
    let mut style: usize = 0;
    if attr & 2 != 0 {
        style = style + 1;
    }
    if attr & 4 != 0 {
        style = style + 2;
    }
    style
}

} // verus!
