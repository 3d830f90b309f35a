use vstd::prelude::*;

verus! {

/// The size of a character cell, in pixels: the width of a character, its
/// height without and with the space between lines, and the width of a cell.
#[derive(Copy, Clone, Debug, PartialEq, Eq)]
pub struct Metrics {
    charwidth: u64,
    charheight: u64,
    linespace: u64,
    height: u64,
    width: u64,
}

/// `v` font units, rounded up to whole pixels.
pub open spec fn pixels(v: int) -> int {
    (v + 1023) / 1024
}

/// The largest of the first `n` values, and at least 1.
pub open spec fn max_from_one(vals: Seq<int>, n: nat) -> int
    decreases n,
{
    if n == 0 {
        1
    } else {
        let m = max_from_one(vals, (n - 1) as nat);
        if vals[n - 1] > m {
            vals[n - 1]
        } else {
            m
        }
    }
}

pub open spec fn widths(extents: Seq<(i32, i32)>) -> Seq<int> {
    extents.map_values(|e: (i32, i32)| e.0 as int)
}

pub open spec fn heights(extents: Seq<(i32, i32)>) -> Seq<int> {
    extents.map_values(|e: (i32, i32)| e.1 as int)
}

/// The character height, in font units, from the largest height of the
/// laid out characters and the height the font reports (when it reports one).
pub open spec fn char_height_units(max_height: int, font_height: int) -> int {
    if font_height > 0 {
        if font_height < max_height {
            font_height
        } else {
            max_height
        }
    } else {
        max_height
    }
}

/// The metrics `after` are `before` recomputed from the laid out
/// characters' `extents` and the font's height.
pub open spec fn recomputed(before: Metrics, after: Metrics, extents: Seq<(i32, i32)>, font_height: int) -> bool {
    let w = max_from_one(widths(extents), extents.len());
    let h = char_height_units(max_from_one(heights(extents), extents.len()), font_height);
    if before.spec_charheight() * 1024 == h && before.spec_charwidth() * 1024 == w && before.spec_width() * 1024 == w {
        after == before
    } else {
        &&& after.spec_width() == pixels(w)
        &&& after.spec_charwidth() == pixels(w)
        &&& after.spec_charheight() == pixels(h)
        &&& after.spec_height() == pixels(h) + before.spec_linespace()
        &&& after.spec_linespace() == before.spec_linespace()
    }
}

impl Metrics {
    pub closed spec fn spec_charwidth(&self) -> u64 {
        self.charwidth
    }

    pub closed spec fn spec_charheight(&self) -> u64 {
        self.charheight
    }

    pub closed spec fn spec_linespace(&self) -> u64 {
        self.linespace
    }

    pub closed spec fn spec_height(&self) -> u64 {
        self.height
    }

    pub closed spec fn spec_width(&self) -> u64 {
        self.width
    }

    /// One pixel wide and two high, so that no window is empty.
    pub fn new() -> (res: Metrics)
        ensures
            res.spec_charwidth() == 1 && res.spec_charheight() == 2,
            res.spec_linespace() == 0 && res.spec_height() == 2 && res.spec_width() == 1,
    {
        Metrics { charwidth: 1, charheight: 2, linespace: 0, width: 1, height: 2 }
    }

    /// The width of a character on screen.
    pub fn charwidth(&self) -> (res: u64)
        ensures
            res == self.spec_charwidth(),
    {
        self.charwidth
    }

    pub fn set_charwidth(&mut self, charwidth: u64)
        ensures
            final(self).spec_charwidth() == charwidth,
            final(self).spec_charheight() == old(self).spec_charheight(),
            final(self).spec_linespace() == old(self).spec_linespace(),
            final(self).spec_height() == old(self).spec_height(),
            final(self).spec_width() == old(self).spec_width(),
    {
        self.charwidth = charwidth;
    }

    /// The height of a character, without the space between lines.
    pub fn charheight(&self) -> (res: u64)
        ensures
            res == self.spec_charheight(),
    {
        self.charheight
    }

    /// Sets the character height; the line height follows it.
    pub fn set_charheight(&mut self, charheight: u64)
        requires
            charheight + old(self).spec_linespace() <= u64::MAX,
        ensures
            final(self).spec_charheight() == charheight,
            final(self).spec_height() == charheight + old(self).spec_linespace(),
            final(self).spec_charwidth() == old(self).spec_charwidth(),
            final(self).spec_linespace() == old(self).spec_linespace(),
            final(self).spec_width() == old(self).spec_width(),
    {
        self.charheight = charheight;
        self.height = charheight + self.linespace;
    }

    /// The height of a line: the character height and the space between lines.
    pub fn height(&self) -> (res: u64)
        ensures
            res == self.spec_height(),
    {
        self.height
    }

    /// The width of a cell.
    pub fn width(&self) -> (res: u64)
        ensures
            res == self.spec_width(),
    {
        self.width
    }

    pub fn set_width(&mut self, width: u64)
        ensures
            final(self).spec_width() == width,
            final(self).spec_charwidth() == old(self).spec_charwidth(),
            final(self).spec_charheight() == old(self).spec_charheight(),
            final(self).spec_linespace() == old(self).spec_linespace(),
            final(self).spec_height() == old(self).spec_height(),
    {
        self.width = width;
    }

    pub fn linespace(&self) -> (res: u64)
        ensures
            res == self.spec_linespace(),
    {
        self.linespace
    }

    /// Sets the space between lines; the line height becomes the character
    /// height and the new space.
    pub fn set_linespace(&mut self, linespace: u64)
        requires
            old(self).spec_charheight() + linespace <= u64::MAX,
        ensures
            final(self).spec_linespace() == linespace,
            final(self).spec_height() == old(self).spec_charheight() + linespace,
            final(self).spec_charwidth() == old(self).spec_charwidth(),
            final(self).spec_charheight() == old(self).spec_charheight(),
            final(self).spec_width() == old(self).spec_width(),
    {
        self.linespace = linespace;
        self.height = self.charheight + linespace;
    }

    /// Takes the cell size from the laid out printable ASCII characters,
    /// given by their logical extents (width, height) in font units, and the
    /// height the font reports (0 when it reports none): a character is as
    /// wide as the widest and as high as the highest (or the font's height
    /// when smaller), rounded up to whole pixels.  When the size in font
    /// units is already the one kept, nothing changes.
    pub fn recompute(&mut self, extents: &Vec<(i32, i32)>, font_height: i32)
        requires
            pixels(char_height_units(max_from_one(heights(extents@), extents@.len()), font_height as int))
                + old(self).spec_linespace() <= u64::MAX,
        ensures
            recomputed(*old(self), *final(self), extents@, font_height as int),
    {
        let mut max_width: i32 = 1;
        let mut max_height: i32 = 1;
        let mut i: usize = 0;
        while i < extents.len()
            invariant
                i <= extents@.len(),
                max_width == max_from_one(widths(extents@), i as nat),
                max_height == max_from_one(heights(extents@), i as nat),
            decreases extents@.len() - i,
        {
            let (w, h) = extents[i];
            if w > max_width {
                max_width = w;
            }
            if h > max_height {
                max_height = h;
            }
            i = i + 1;
        }
        let char_height: i32 = if font_height > 0 {
            if font_height < max_height {
                font_height
            } else {
                max_height
            }
        } else {
            max_height
        };
        proof {
            lemma_max_from_one_positive(widths(extents@), extents@.len());
            lemma_max_from_one_positive(heights(extents@), extents@.len());
        }
        let same = self.charheight as u128 * 1024 == char_height as u128
            && self.charwidth as u128 * 1024 == max_width as u128
            && self.width as u128 * 1024 == max_width as u128;
        if same {
            return;
        }
        let charwidth = ((max_width as u64) + 1023) / 1024;
        let charheight = ((char_height as u64) + 1023) / 1024;
        self.width = charwidth;
        self.charwidth = charwidth;
        self.set_charheight(charheight);
    }
}

proof fn lemma_max_from_one_positive(vals: Seq<int>, n: nat)
    ensures
        max_from_one(vals, n) >= 1,
    decreases n,
{
    if n > 0 {
        lemma_max_from_one_positive(vals, (n - 1) as nat);
    }
}

} // verus!
