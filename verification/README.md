# terra

A tile-based world drawn with OpenGL. The library (`src/`) holds the logic,
verified with Verus; the program (`app/`) opens the window, talks to OpenGL
and runs the event loop.

- `tiles`: kinds of tile, tiles with their per-tile state, and the table of
  tile properties.
- `quad`: rectangles on the world grid, in whole chunk units.
- `chunk`: chunk positions, the key under which a chunk is stored, and fresh
  chunks (a water layer under an air layer).
- `world`: the table of loaded chunks, the rectangles to draw and the test
  pattern of the first layer.
- `app`: the answer of the event loop to each window event, and the choice of
  a GL configuration.
- `renderer`: the element indices of the unit quad and their bytes.
