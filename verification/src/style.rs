use vstd::prelude::*;

verus! {

/// The three colors of a highlight group; `None` falls back to the defaults.
///
/// The color type is left open: the library only chooses between colors and
/// never looks inside one.
#[derive(Copy, Clone, Debug, Default, PartialEq)]
pub struct Colors<C> {
    pub foreground: Option<C>,
    pub background: Option<C>,
    pub special: Option<C>,
}

impl<C: Copy> Colors<C> {
    pub fn new(foreground: Option<C>, background: Option<C>, special: Option<C>) -> (res: Self)
        ensures
            res.foreground == foreground,
            res.background == background,
            res.special == special,
    {
        Colors { foreground, background, special }
    }
}

/// A highlight definition as sent by Neovim's `hl_attr_define`.
#[derive(Copy, Clone, Debug, PartialEq)]
pub struct Style<C> {
    pub colors: Colors<C>,
    pub reverse: bool,
    pub italic: bool,
    pub bold: bool,
    pub strikethrough: bool,
    pub underline: bool,
    pub undercurl: bool,
    pub blend: u8,
}

/// The color that stands for `own`, or the default one when `own` is unset.
pub open spec fn color_or<C>(own: Option<C>, default: Option<C>) -> C {
    match own {
        Some(c) => c,
        None => default.unwrap(),
    }
}

impl<C: Copy> Style<C> {
    /// A style with the given colors and every attribute off.
    pub fn new(colors: Colors<C>) -> (res: Self)
        ensures
            res == Style::<C>::plain(colors),
    {
        Style {
            colors,
            reverse: false,
            italic: false,
            bold: false,
            strikethrough: false,
            underline: false,
            undercurl: false,
            blend: 0,
        }
    }

    pub open spec fn plain(colors: Colors<C>) -> Style<C> {
        Style {
            colors,
            reverse: false,
            italic: false,
            bold: false,
            strikethrough: false,
            underline: false,
            undercurl: false,
            blend: 0,
        }
    }

    /// Whether the foreground can be resolved against `defaults`.
    pub open spec fn has_foreground(self, defaults: Colors<C>) -> bool {
        if self.reverse {
            self.colors.background is Some || defaults.background is Some
        } else {
            self.colors.foreground is Some || defaults.foreground is Some
        }
    }

    /// Whether the background can be resolved against `defaults`.
    pub open spec fn has_background(self, defaults: Colors<C>) -> bool {
        if self.reverse {
            self.colors.foreground is Some || defaults.foreground is Some
        } else {
            self.colors.background is Some || defaults.background is Some
        }
    }

    pub open spec fn foreground_of(self, defaults: Colors<C>) -> C {
        if self.reverse {
            color_or(self.colors.background, defaults.background)
        } else {
            color_or(self.colors.foreground, defaults.foreground)
        }
    }

    pub open spec fn background_of(self, defaults: Colors<C>) -> C {
        if self.reverse {
            color_or(self.colors.foreground, defaults.foreground)
        } else {
            color_or(self.colors.background, defaults.background)
        }
    }

    pub open spec fn special_of(self, defaults: Colors<C>) -> C {
        match self.colors.special {
            Some(c) => c,
            None => match defaults.special {
                Some(c) => c,
                None => self.foreground_of(defaults),
            },
        }
    }

    /// The color text is drawn with; `reverse` swaps foreground and background.
    pub fn foreground(&self, default_colors: &Colors<C>) -> (res: C)
        requires
            self.has_foreground(*default_colors),
        ensures
            res == self.foreground_of(*default_colors),
    {
        if self.reverse {
            match self.colors.background {
                Some(c) => c,
                None => default_colors.background.unwrap(),
            }
        } else {
            match self.colors.foreground {
                Some(c) => c,
                None => default_colors.foreground.unwrap(),
            }
        }
    }

    /// The color the cell is filled with; `reverse` swaps foreground and background.
    pub fn background(&self, default_colors: &Colors<C>) -> (res: C)
        requires
            self.has_background(*default_colors),
        ensures
            res == self.background_of(*default_colors),
    {
        if self.reverse {
            match self.colors.foreground {
                Some(c) => c,
                None => default_colors.foreground.unwrap(),
            }
        } else {
            match self.colors.background {
                Some(c) => c,
                None => default_colors.background.unwrap(),
            }
        }
    }

    /// The color of underlines and undercurls: the style's own, else the
    /// default special color, else the foreground.
    pub fn special(&self, default_colors: &Colors<C>) -> (res: C)
        requires
            self.colors.special is Some || default_colors.special is Some || self.has_foreground(*default_colors),
        ensures
            res == self.special_of(*default_colors),
    {
        match self.colors.special {
            Some(c) => c,
            None => match default_colors.special {
                Some(c) => c,
                None => self.foreground(default_colors),
            },
        }
    }
}

/// Reversing a style swaps the colors it resolves to: its foreground is the
/// background of the same style unreversed, and its background that style's
/// foreground.
pub proof fn lemma_reverse_swaps_colors<C: Copy>(style: Style<C>, defaults: Colors<C>)
    requires
        !style.reverse,
    ensures
        (Style { reverse: true, ..style }).foreground_of(defaults) == style.background_of(defaults),
        (Style { reverse: true, ..style }).background_of(defaults) == style.foreground_of(defaults),
        (Style { reverse: true, ..style }).has_foreground(defaults) == style.has_background(defaults),
        (Style { reverse: true, ..style }).has_background(defaults) == style.has_foreground(defaults),
{
}

/// A style's own color always wins over the default one: with a foreground
/// and a background of its own, the defaults play no part.
pub proof fn lemma_own_colors_win<C: Copy>(style: Style<C>, d1: Colors<C>, d2: Colors<C>)
    requires
        style.colors.foreground is Some,
        style.colors.background is Some,
    ensures
        style.foreground_of(d1) == style.foreground_of(d2),
        style.background_of(d1) == style.background_of(d2),
{
}

/// Without a special color of its own, a style underlines in the default
/// special color, and without that too, in its foreground color.
pub proof fn lemma_special_falls_back<C: Copy>(style: Style<C>, defaults: Colors<C>)
    requires
        style.colors.special is None,
    ensures
        defaults.special is Some ==> style.special_of(defaults) == defaults.special.unwrap(),
        defaults.special is None ==> style.special_of(defaults) == style.foreground_of(defaults),
{
}

} // verus!
