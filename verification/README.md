# git-workon-review

The core of a side-by-side git diff review tool, written in Verus: every function under
`src/` carries a contract that Verus proves.

- `model`, `synthesis`, `error`, `bytes`: the diff model, and patch text for staging whole
  hunks or line selections, with its inversion (a reverse apply).
- `search`, `align`, `text`: literal, smartcase search over a file's aligned diff rows.
- `summary`: diffstats of changesets and directories.
- `source`, `stage_op`: classifying a review source argument; queued staging actions.
- `theme`, `highlight`: the base16 scheme, palettes, theme overrides, and the capture space
  syntax colors are resolved against.
- `terminal_query`: the terminal color probe's query, reply parsing and decisions.
- `render`, `styled`, `scope`: the renderer's helpers (gutters, tints, coloring and panning a
  line of diff text), styled spans and lines, and the scope allowlists.
- `panel`, `header`, `diff_line`: the rendered rows: outline rows, summary panels, pane
  headers, captions and footer, and the side-by-side, inline and gap rows of a diff pane.
- `layout`, `body`: screen areas, the centered popup, and the diff body's layout decisions.

`app/` holds what stays outside the proofs: color conversions for the terminal UI crate, the
floating-point blending of derived palettes, and the tty conversation of the probe.

Resolving a review source to changesets (stacks, ranges, refs) rests on the `workon` crate's
stack model, which this crate does not depend on; `source` holds the classification of the
argument and the local-branch lookup step. Scope lookup parses the text with a syntax parser
for its language, which is not part of this crate either; `scope` holds the scope kinds, the
check that decides whether a lookup runs at all, and the choice of the innermost scope from a
chain of nodes. Drawing a frame needs the application state, so the crate stops at the lines,
rows and areas a frame is drawn from.
