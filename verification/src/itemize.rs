use vstd::prelude::*;
use vstd::string::*;

use crate::highlights::HighlightDefinitions;
use crate::style::Style;
use crate::text::{CellView, TextLine};

verus! {

/// Whether xi-unicode counts `c` among the emoji.
pub uninterp spec fn emoji_char(c: char) -> bool;

/// `xi_unicode::EmojiExt::is_emoji`: whether `c` is in xi-unicode's table of
/// emoji code points, a fixed function of `c`.
#[verifier::external_body]
fn is_emoji(c: char) -> (res: bool)
    ensures
        res == emoji_char(c),
{
    xi_unicode::EmojiExt::is_emoji(c)
}

/// The characters that start a keycap sequence: a digit, `#` or `*`.
pub open spec fn keycap_base(c: char) -> bool {
    ('0' <= c && c <= '9') || c == '#' || c == '*'
}

/// `xi_unicode::is_keycap_base`: whether `c` is a digit, `#` or `*`.
#[verifier::external_body]
fn is_keycap_base(c: char) -> (res: bool)
    ensures
        res == keycap_base(c),
{
    xi_unicode::is_keycap_base(c)
}

/// Which face a run of text is drawn with.
#[derive(Copy, Clone, Debug, PartialEq, Eq)]
pub enum FontKind {
    Emoji,
    BoldItalic,
    Italic,
    Bold,
    Regular,
}

/// The face for text that starts with `c`, in a cell styled `style`: an
/// emoji (but not a keycap base) gets the emoji face, else the style's.
pub open spec fn font_kind<C>(c: char, style: Style<C>) -> FontKind {
    if !keycap_base(c) && emoji_char(c) {
        FontKind::Emoji
    } else if style.italic && style.bold {
        FontKind::BoldItalic
    } else if style.italic {
        FontKind::Italic
    } else if style.bold {
        FontKind::Bold
    } else {
        FontKind::Regular
    }
}

/// The highlight group of a cell; the default group when it names none.
pub open spec fn group_of(cell: CellView) -> u64 {
    match cell.hldef {
        Some(h) => h,
        None => 0,
    }
}

/// The face of a cell with text.
pub open spec fn cell_font<C>(cell: CellView, styles: Map<u64, Style<C>>) -> FontKind {
    font_kind(cell.text[0], styles[group_of(cell)])
}

/// A run of cells drawn with one face: its text, the face, and the
/// positions of its cells in the line.
pub struct Item {
    pub text: String,
    pub font: FontKind,
    pub cells: Vec<usize>,
}

pub struct ItemView {
    pub text: Seq<char>,
    pub font: FontKind,
    pub cells: Seq<usize>,
}

impl View for Item {
    type V = ItemView;

    open spec fn view(&self) -> ItemView {
        ItemView { text: self.text@, font: self.font, cells: self.cells@ }
    }
}

/// The runs of the first `n` cells of a line, with the group of the last
/// cell with text.  The first cell starts the first run; a cell without
/// text joins the run before it; a cell with text starts a new run when its
/// group differs from that of the last cell with text (the new run lists
/// its first cell twice), and joins the run before it otherwise.
pub open spec fn runs_of<C>(cells: Seq<CellView>, styles: Map<u64, Style<C>>, n: nat) -> (Seq<ItemView>, u64)
    decreases n,
{
    if n <= 1 {
        (seq![ItemView { text: cells[0].text, font: cell_font(cells[0], styles), cells: seq![0usize] }], group_of(cells[0]))
    } else {
        let (items, group) = runs_of(cells, styles, (n - 1) as nat);
        let i = n - 1;
        let cell = cells[i];
        let last = items.last();
        if cell.text.len() == 0 {
            (items.drop_last().push(ItemView { cells: last.cells.push(i as usize), ..last }), group)
        } else if group_of(cell) != group {
            (items.push(ItemView { text: cell.text, font: cell_font(cell, styles), cells: seq![i as usize, i as usize] }), group_of(cell))
        } else {
            (items.drop_last().push(ItemView { text: last.text + cell.text, cells: last.cells.push(i as usize), ..last }), group)
        }
    }
}

/// The text of the first `n` cells, one after the other.
pub open spec fn text_of(cells: Seq<CellView>, n: nat) -> Seq<char>
    decreases n,
{
    if n == 0 {
        Seq::empty()
    } else {
        text_of(cells, (n - 1) as nat) + cells[n - 1].text
    }
}

/// Whether a line can be split into runs: its first cell has text, and the
/// group of every cell with text (and of the first) is defined.
pub open spec fn itemize_ok<C>(cells: Seq<CellView>, styles: Map<u64, Style<C>>) -> bool {
    &&& cells.len() > 0 ==> cells[0].text.len() > 0
    &&& forall|i: int|
        0 <= i < cells.len() && (i == 0 || cells[i].text.len() > 0) ==> styles.contains_key(#[trigger] group_of(cells[i]))
}

pub open spec fn item_views(items: Seq<Item>) -> Seq<ItemView> {
    items.map_values(|it: Item| it@)
}

/// Splits a line into runs of cells drawn with one face, and gives the
/// line's text; an empty line has no runs and no text.
pub fn itemize<C: Copy>(line: &TextLine, hldefs: &HighlightDefinitions<C>) -> (res: (Vec<Item>, String))
    requires
        itemize_ok(line@.cells, hldefs.styles()),
    ensures
        line@.cells.len() == 0 ==> res.0@.len() == 0 && res.1@.len() == 0,
        line@.cells.len() > 0 ==> item_views(res.0@) == runs_of(line@.cells, hldefs.styles(), line@.cells.len()).0,
        res.1@ == text_of(line@.cells, line@.cells.len()),
{
    let ghost cells = line@.cells;
    let ghost styles = hldefs.styles();
    let mut items: Vec<Item> = Vec::new();
    let mut text = String::new();
    let n = line.cells.len();
    if n == 0 {
        return (items, text);
    }
    let first = &line.cells[0];
    assert(first@ == cells[0]);
    let mut cur = Item { text: first.text.clone(), font: face(first, hldefs), cells: Vec::new() };
    cur.cells.push(0);
    text.append(first.text.as_str());
    let mut group: u64 = match first.hldef {
        Some(h) => h,
        None => 0,
    };
    proof {
        assert(cur.cells@ =~= seq![0usize]);
        assert(text_of(cells, 0) =~= Seq::<char>::empty());
        assert(text@ =~= text_of(cells, 1));
        assert(item_views(items@).push(cur@) =~= runs_of(cells, styles, 1).0);
    }
    let mut i: usize = 1;
    while i < n
        invariant
            n == cells.len(),
            cells == line@.cells,
            styles == hldefs.styles(),
            itemize_ok(cells, styles),
            1 <= i <= n,
            item_views(items@).push(cur@) == runs_of(cells, styles, i as nat).0,
            group == runs_of(cells, styles, i as nat).1,
            text@ == text_of(cells, i as nat),
        decreases n - i,
    {
        let cell = &line.cells[i];
        assert(cell@ == cells[i as int]);
        let ghost before = runs_of(cells, styles, i as nat).0;
        let ghost prev_text = text@;
        text.append(cell.text.as_str());
        let h: u64 = match cell.hldef {
            Some(h) => h,
            None => 0,
        };
        if cell.text.as_str().unicode_len() == 0 {
            let ghost old_cur = cur@;
            cur.cells.push(i);
            proof {
                assert(cur@ == (ItemView { cells: old_cur.cells.push(i as usize), ..old_cur }));
                assert(before.last() == old_cur);
                assert(item_views(items@) =~= before.drop_last());
            }
        } else if h != group {
            let font = face(cell, hldefs);
            let mut done = Item { text: cell.text.clone(), font, cells: Vec::new() };
            std::mem::swap(&mut cur, &mut done);
            cur.cells.push(i);
            cur.cells.push(i);
            let ghost old_items = item_views(items@);
            items.push(done);
            proof {
                assert(item_views(items@) =~= old_items.push(done@));
                assert(cur.cells@ =~= seq![i as usize, i as usize]);
            }
            group = h;
        } else {
            let ghost old_cur = cur@;
            cur.text.append(cell.text.as_str());
            cur.cells.push(i);
            proof {
                assert(cur@ == (ItemView { text: old_cur.text + cell@.text, cells: old_cur.cells.push(i as usize), ..old_cur }));
                assert(before.last() == old_cur);
                assert(item_views(items@) =~= before.drop_last());
            }
        }
        proof {
            assert(text@ =~= text_of(cells, (i + 1) as nat));
        }
        i = i + 1;
    }
    let ghost old_items = item_views(items@);
    items.push(cur);
    assert(item_views(items@) =~= old_items.push(cur@));
    (items, text)
}

/// The face of a cell with text, from its first character and its style.
fn face<C: Copy>(cell: &crate::text::TextCell, hldefs: &HighlightDefinitions<C>) -> (res: FontKind)
    requires
        cell@.text.len() > 0,
        hldefs.styles().contains_key(group_of(cell@)),
    ensures
        res == cell_font(cell@, hldefs.styles()),
{
    let h: u64 = match cell.hldef {
        Some(h) => h,
        None => 0,
    };
    let style = hldefs.get(h).unwrap();
    let c = cell.text.as_str().get_char(0);
    if !is_keycap_base(c) && is_emoji(c) {
        FontKind::Emoji
    } else if style.italic && style.bold {
        FontKind::BoldItalic
    } else if style.italic {
        FontKind::Italic
    } else if style.bold {
        FontKind::Bold
    } else {
        FontKind::Regular
    }
}

/// The face follows the text and its style: an emoji that is not a keycap
/// base is drawn with the emoji face; anything else is drawn slanted exactly
/// when its style is italic, and heavy exactly when its style is bold.
pub proof fn lemma_face_follows_style<C>(c: char, style: Style<C>)
    ensures
        (font_kind(c, style) == FontKind::Emoji) == (emoji_char(c) && !keycap_base(c)),
        font_kind(c, style) != FontKind::Emoji ==> {
            &&& (font_kind(c, style) == FontKind::Italic || font_kind(c, style) == FontKind::BoldItalic) == style.italic
            &&& (font_kind(c, style) == FontKind::Bold || font_kind(c, style) == FontKind::BoldItalic) == style.bold
        },
{
}

/// Whether a run starts at one of the first `n` cells and is drawn with the
/// face of the cell it starts at.
pub open spec fn starts_with_face<C>(cells: Seq<CellView>, styles: Map<u64, Style<C>>, n: nat, item: ItemView) -> bool {
    &&& item.cells.len() > 0
    &&& item.cells[0] < n
    &&& item.font == font_kind(cells[item.cells[0] as int].text[0], styles[group_of(cells[item.cells[0] as int])])
}

/// Each run is drawn with the face of the cell it starts at: the face its
/// first character and that cell's style call for.
pub proof fn lemma_runs_take_first_face<C>(cells: Seq<CellView>, styles: Map<u64, Style<C>>, n: nat)
    requires
        1 <= n <= cells.len(),
        cells.len() <= usize::MAX,
    ensures
        forall|j: int| 0 <= j < runs_of(cells, styles, n).0.len() ==> starts_with_face(cells, styles, n, #[trigger] runs_of(cells, styles, n).0[j]),
    decreases n,
{
    if n > 1 {
        let k = (n - 1) as nat;
        lemma_runs_take_first_face(cells, styles, k);
        lemma_runs_cover_text(cells, styles, k);
        let (items, group) = runs_of(cells, styles, k);
        let after = runs_of(cells, styles, n).0;
        let i = n - 1;
        let cell = cells[i];
        let m = items.len() - 1;
        assert forall|j: int| 0 <= j < after.len() implies starts_with_face(cells, styles, n, #[trigger] after[j]) by {
            if j <= m {
                assert(starts_with_face(cells, styles, k, items[j]));
            }
            if cell.text.len() == 0 || group_of(cell) == group {
                if j < m {
                    assert(after[j] == items[j]);
                } else {
                    assert(after[j].cells[0] == items[m].cells[0]);
                    assert(after[j].font == items[m].font);
                }
            } else {
                if j <= m {
                    assert(after[j] == items[j]);
                } else {
                    assert(after[j].cells =~= seq![i as usize, i as usize]);
                    assert(after[j].cells[0] as int == i);
                    assert(after[j].font == cell_font(cell, styles));
                }
            }
        }
    }
}

/// A new run starts exactly where the highlight group changes: two runs
/// next to each other start at cells of different groups, and the group the
/// runs go on with is that of the cell the last run starts at.
pub proof fn lemma_runs_split_by_group<C>(cells: Seq<CellView>, styles: Map<u64, Style<C>>, n: nat)
    requires
        1 <= n <= cells.len(),
        cells.len() <= usize::MAX,
    ensures
        runs_of(cells, styles, n).1 == group_of(cells[runs_of(cells, styles, n).0.last().cells[0] as int]),
        forall|j: int| 0 <= j < runs_of(cells, styles, n).0.len() - 1 ==> group_of(
            cells[#[trigger] runs_of(cells, styles, n).0[j + 1].cells[0] as int],
        ) != group_of(cells[runs_of(cells, styles, n).0[j].cells[0] as int]),
    decreases n,
{
    lemma_runs_cover_text(cells, styles, n);
    lemma_runs_take_first_face(cells, styles, n);
    if n > 1 {
        let k = (n - 1) as nat;
        lemma_runs_split_by_group(cells, styles, k);
        lemma_runs_cover_text(cells, styles, k);
        lemma_runs_take_first_face(cells, styles, k);
        let (items, group) = runs_of(cells, styles, k);
        let after = runs_of(cells, styles, n).0;
        let i = n - 1;
        let cell = cells[i];
        let m = items.len() - 1;
        assert(starts_with_face(cells, styles, k, items[m]));
        if cell.text.len() == 0 || group_of(cell) == group {
            assert(after.len() == items.len());
            assert(after[m].cells[0] == items[m].cells[0]);
            assert forall|j: int| 0 <= j < after.len() - 1 implies group_of(cells[#[trigger] after[j + 1].cells[0] as int])
                != group_of(cells[after[j].cells[0] as int]) by {
                assert(after[j] == items[j]);
                if j + 1 < m {
                    assert(after[j + 1] == items[j + 1]);
                }
            }
        } else {
            assert(after.len() == items.len() + 1);
            assert(after[m + 1].cells =~= seq![i as usize, i as usize]);
            assert(after[m + 1].cells[0] as int == i);
            assert forall|j: int| 0 <= j < after.len() - 1 implies group_of(cells[#[trigger] after[j + 1].cells[0] as int])
                != group_of(cells[after[j].cells[0] as int]) by {
                assert(after[j] == items[j]);
                if j + 1 <= m {
                    assert(after[j + 1] == items[j + 1]);
                }
            }
        }
    }
}

/// The texts of `items`, one after the other.
pub open spec fn texts(items: Seq<ItemView>) -> Seq<char>
    decreases items.len(),
{
    if items.len() == 0 {
        Seq::empty()
    } else {
        texts(items.drop_last()) + items.last().text
    }
}

/// The runs cover the line's text: their texts, one after the other, are
/// the text of the line.
pub proof fn lemma_runs_cover_text<C>(cells: Seq<CellView>, styles: Map<u64, Style<C>>, n: nat)
    requires
        1 <= n <= cells.len(),
    ensures
        texts(runs_of(cells, styles, n).0) == text_of(cells, n),
        runs_of(cells, styles, n).0.len() >= 1,
    decreases n,
{
    if n == 1 {
        let items = runs_of(cells, styles, 1).0;
        assert(items.drop_last() =~= Seq::<ItemView>::empty());
        assert(texts(items.drop_last()) =~= Seq::<char>::empty());
        assert(text_of(cells, 0) =~= Seq::<char>::empty());
        assert(texts(items) =~= text_of(cells, 1));
    } else {
        lemma_runs_cover_text(cells, styles, (n - 1) as nat);
        let (items, group) = runs_of(cells, styles, (n - 1) as nat);
        let cell = cells[n - 1];
        let after = runs_of(cells, styles, n).0;
        if cell.text.len() == 0 {
            assert(after.drop_last() =~= items.drop_last());
            assert(after.last().text == items.last().text);
            assert(texts(after) =~= texts(items) + cell.text);
        } else if group_of(cell) != group {
            assert(after.drop_last() =~= items);
        } else {
            assert(after.drop_last() =~= items.drop_last());
            assert(texts(after) =~= texts(items.drop_last()) + (items.last().text + cell.text));
        }
    }
}

} // verus!
