# reovim

The verified core of a Neovim front end: the state the window is drawn from,
kept up to date by Neovim's redraw events, and the commands sent back to
Neovim. The functions under `src/` carry contracts that Verus proves; the few
that call std or an outside crate (`vector-map`, `xi-unicode`) are small
wrappers marked `external_body`, whose contracts Verus takes as given.

- `editor`: the editor model and how each redraw event changes it.
- `grid`, `textbuf`, `text`: the grids, their text buffers and lines.
- `factory`: components keyed by grid, with the changes their widgets need.
- `highlights`, `style`, `color`: highlight groups and colors.
- `cursor`: the cursor, its modes and blinking.
- `metrics`: the size of a character cell.
- `itemize`, `shaping`, `boxdraw`: runs of text by face, glyph clusters, and
  the rectangles, polygons, strokes and patterns box drawing characters are
  drawn with.
- `keys`, `commands`, `handler`, `opts`: key input, commands to Neovim, the
  answers to Neovim's requests, and the command line options.
- `strings`: splitting, joining, trimming and replacing text.

`app/` holds the command-line entry; `tests/` the tests.
