# hexx

Hexagonal grid coordinates and the algorithms built on them, written in Verus
with machine checked contracts.

- `src/` is the verified library: axial/cubic coordinates (`Hex`), the four
  kinds of directions, coordinate conversions (doubled, offset, hexmod, packed,
  `u64`), rings, spirals, ranges and wedges, hexagonal chunks (resolution
  change and wrapping), bounds, wraparound maps, field of movement, fields of
  view along given lines of sight, and A* search, whole or one step at a time.
- `app/` holds what cannot be verified: floating point rounding,
  interpolation and lines, euclidean lengths, and the field of view functions that
  draw their lines with floating point.
- `tests/` exercises both.
