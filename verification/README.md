# effort_picker

The horizontal, model-adaptive `/effort` selector of a terminal UI, as a
verified library.

- `src/level.rs` — effort levels, their rank and labels, the default ladder,
  the choice of the highlighted index when the picker opens, and the level
  descriptions.
- `src/picker.rs` — the picker's state and its moves, with the laws of
  opening and navigating.
- `src/layout.rs` — the columns of the labels, the ultracode divider and the
  markers on the track, and the label styles.
- `src/wrap.rs` — greedy word-wrapping of the descriptions, and the proof that
  a wrapping is unique.
- `src/plan.rs` — what a visible picker shows: clamped selection, label row,
  markers, body width and description lines, and the columns and rows where
  each piece goes inside the panel.
- `src/panel.rs` — size and position of the panel and its bordered inside
  (computed with ratatui's `Block::inner`).
- `src/palette.rs` — the colours, the colour and weight of each kind of
  label, and the marker accents, tied to the selected label's colour.
- `app/lib.rs` — painting the panel into a ratatui frame, including the
  floating-point rainbow and spectrum effects.
