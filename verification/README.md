# grapher3d

A 3D surface grapher for the NumWorks calculator, split into a verified
library and a thin firmware loop.

## Layout

- `src/` is the library, verified with Verus. Every decision the application
  makes lives here with a contract:
  - `keys`: raw key masks, semantic events and display value types;
  - `expression`: the expression grammar, operator-precedence compiler and
    bytecode checker;
  - `editor`, `settings`, `number`, `text`: the equation editor, the Settings
    pages with their numeric field, and the text they show;
  - `app`: the tab/focus state machine and dirty-region bookkeeping;
  - `input`: the camera key mapping;
  - `graph`, `surface`, `functions`, `intersections`: option vocabulary, grid
    shapes, function slots and packed intersection storage;
  - `raster`: the label font, label boxes, Bresenham lines and band filling;
  - `scene`: view geometry, numeric label selection and band composition;
  - `ui`: display lists for the header, editor and Settings screens.
- `app/` is ordinary Rust around the library: the firmware bindings, the
  main loop, and everything computed in `f32` (camera projection, surface
  sampling, expression evaluation, tick values).
- `tests/` exercises the library through its public interface.
