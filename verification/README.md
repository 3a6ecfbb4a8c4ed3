# editor_platform

The rules behind an editor's windows, verified with Verus: which colours brackets
get, when frames are drawn and how they reach the screen, and what the clipboard and
the input method are told.

- `src/brackets` chooses bracket colours and collects the ranges that they highlight.
- `src/capture` plans captures of themes, cuts and stitches the images, and writes the
  report on them.
- `src/frames` announces frames, chooses their deadlines and bounds how many are on
  their way.
- `src/present` keeps the buffers, the damage and the queue of the frames that are
  handed to the screen.
- `src/render` lays scenes out in instance buffers and decides how a frame goes through
  the renderer.
- `src/rounding.rs` rounds whole numbers and quotients to binary fractions, so that
  averages and frame counts come out as in single and in double precision.
- `src/window`, `src/clipboard`, `src/atlas.rs`, `src/input.rs` and
  `src/text_system.rs` hold the rest of what a platform offers.

Lengths in fractions of a pixel, contrasts and colour distances are fixed-point numbers
with forty fractional bits; colours carry the bits of single-precision numbers.
Measuring colours, reading files and starting the editor that is captured is left to
the program in `app`.
