# debug_lines

A verified core for a debug-line overlay of an OpenGL renderer.

- `src/geometry.rs`: the line lists of the overlay's shapes (point markers,
  rays, box outlines, grids), generic over the coordinate and color types.
- `src/registry.rs`: the containers of lines, keyed by ascending ids, with a
  flag that records whether they changed since the last upload.
- `src/lines.rs`: the overlay itself: adding, moving and releasing markers,
  and for each frame the decision of what to upload into the vertex buffer
  and which draw calls to make.
- `app/lib.rs`: the OpenGL side (shader program, vertex buffer, draw calls)
  and the float arithmetic that places marker tips and grid steps.
- `tests/`: tests of the library on integer coordinates.
