use std::collections::HashMap;

use vstd::prelude::*;

use crate::style::{Colors, Style};

verus! {

broadcast use vstd::std_specs::hash::group_hash_axioms;

/// The highlight groups Neovim has defined, keyed by their id, with the
/// default colors.  Group `DEFAULT` is the style of the default colors.
pub struct HighlightDefinitions<C> {
    styles: HashMap<u64, Style<C>>,
    defaults: Option<Colors<C>>,
}

impl<C: Copy> HighlightDefinitions<C> {
    pub const DEFAULT: u64 = 0;

    /// The styles by id.
    pub closed spec fn styles(&self) -> Map<u64, Style<C>> {
        self.styles@
    }

    /// The default colors, once known.
    pub closed spec fn default_colors(&self) -> Option<Colors<C>> {
        self.defaults
    }

    /// Definitions that hold only the default group, styled with `defaults`
    /// (black on white in the application).
    pub fn new(defaults: Colors<C>) -> (res: Self)
        ensures
            res.styles() == Map::<u64, Style<C>>::empty().insert(0, Style::plain(defaults)),
            res.default_colors() == Some(defaults),
    {
        let mut styles: HashMap<u64, Style<C>> = HashMap::new();
        styles.insert(0, Style::new(defaults));
        HighlightDefinitions { styles, defaults: Some(defaults) }
    }

    /// The style of group `k`, if it was defined.
    pub fn get(&self, k: u64) -> (res: Option<&Style<C>>)
        ensures
            match res {
                Some(s) => self.styles().contains_key(k) && *s == self.styles()[k],
                None => !self.styles().contains_key(k),
            },
    {
        self.styles.get(&k)
    }

    /// Defines (or redefines) group `k`.
    pub fn set(&mut self, k: u64, style: Style<C>)
        ensures
            final(self).styles() == old(self).styles().insert(k, style),
            final(self).default_colors() == old(self).default_colors(),
    {
        self.styles.insert(k, style);
    }

    pub fn defaults(&self) -> (res: Option<&Colors<C>>)
        ensures
            match res {
                Some(d) => self.default_colors() == Some(*d),
                None => self.default_colors() is None,
            },
    {
        self.defaults.as_ref()
    }

    /// Sets the default colors, and with them the style of the default group.
    pub fn set_defaults(&mut self, defaults: Colors<C>)
        ensures
            final(self).default_colors() == Some(defaults),
            final(self).styles() == old(self).styles().insert(0, Style::plain(defaults)),
    {
        self.defaults = Some(defaults);
        self.styles.insert(0, Style::new(defaults));
    }
}

/// What a read gives back of a write: after group `k` is set to `style`,
/// reading `k` gives `style`, and every other group reads as before.
pub proof fn lemma_get_after_set<C>(
    before: Map<u64, Style<C>>,
    after: Map<u64, Style<C>>,
    k: u64,
    style: Style<C>,
    j: u64,
)
    requires
        after == before.insert(k, style),
    ensures
        after.contains_key(k) && after[k] == style,
        j != k ==> (after.contains_key(j) == before.contains_key(j)),
        j != k && before.contains_key(j) ==> after[j] == before[j],
{
}

/// After the defaults are set, the default group is the plain style of those
/// defaults, whatever it was before.
pub proof fn lemma_defaults_define_default_group<C: Copy>(
    before: Map<u64, Style<C>>,
    after: Map<u64, Style<C>>,
    defaults: Colors<C>,
)
    requires
        after == before.insert(0, Style::plain(defaults)),
    ensures
        after.contains_key(0),
        after[0].colors == defaults,
        !after[0].reverse && after[0].blend == 0,
{
}

} // verus!
