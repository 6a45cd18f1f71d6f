# sharp_tui

A terminal UI toolkit that renders Dioxus components into a terminal, with flexbox layout
from Yoga and terminal I/O from crossterm.

## Layout

- `src/` is the library, written in Verus. Every function in it carries a contract, and
  Verus proves each one:
  - `geometry`, `style`, `props`: rectangles, text styles, borders and layout properties.
  - `text`: line splitting, word wrapping and truncation of styled text.
  - `paint`: the cell grid, drawing blocks and text into it, and the runs of changed cells
    between two frames.
  - `arena`: the node tree (a slot arena with parent and child links) and its invariant.
  - `render`: painting a whole tree, recording each node's rect, and hit testing.
  - `renderer`: the mutation interface the component runtime drives (create, attach,
    insert, replace, remove, templates, attributes, element ids).
  - `keys`, `input`, `widgets`, `session`, `spinner`: key events, the text input's editing
    and drawing, the decisions of the stock widgets, the event loop's state machine, and
    the spinner frame sets.
- `tests/` runs the library on concrete values.
- `app/` is the part Verus does not see: the Dioxus components and tags, the Yoga layout
  glue, the terminal loop and the conversions to and from crossterm types.
