# alphatab_rs

A notation model and the engraving decisions for guitar tablature, standard
and numbered notation, verified with Verus.

- `src/` is the verified library: pitch spelling and key accidentals, chord
  diagrams, durations, span preparation and its checks, rest condensation,
  score and document structure, validation with resource limits, numbered
  notation, glyph selection, the header text, beat display transformations,
  pointer selection, Guitar Pro conversion rules, XML escaping and the PDF
  export step. Each public function states its result in its `ensures`,
  except where an outside conversion decides it: the PDF export states the
  framing of the file it returns and its errors. The `pub proof fn` items
  state properties that hold across calls.
- `app/` holds what stays outside verification: reading Guitar Pro files,
  onsets in floating-point quarter notes, font loading, PNG rasterization and
  the mapping of glyphs to SMuFL code points.
- `tests/` exercises the library on concrete values.

The page engine that turns these decisions into floating-point geometry
(measure planning, system breaking, drawing of staves, beams, spans and
annotations, SVG writing, pagination, zoom and egui painting) is not part of
this crate: it is floating-point code throughout, so it cannot stand in the
verified library.
