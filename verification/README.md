# gpkbd

An on-screen keyboard for typing with a gamepad: a grid of keys drawn on a
layer-shell surface that never takes keyboard focus, driven by the pad's
evdev events, typing through a uinput device.

The library under `src/` is verified with Verus:

- `keys` — the key grid, its labels and evdev codes, and the laws the grid
  keeps (unique codes, letters shift to upper case, short rows end in gaps).
- `keyboard` — selection, held modifiers and auto-repeat as a state machine
  over a caller-supplied monotonic clock.
- `pad` — decoding raw evdev events into pad actions, including R1's nav
  chord, and picking the pad by name or by its `BTN_SOUTH` button.
- `typing` — the event sequence of a key tap and the keys the uinput device
  announces.
- `control` — what a pad event or a due repeat does, command-line options,
  and surface sizing.
- `render` — the frame layout as a list of drawing steps, and clipped fills.
  The grid holds only keys and gaps, no modifier indicator cells: a held
  modifier shows as a tint in the grid's top-left corner, and while R1's
  nav chord is held the legend changes and the nav tiles replace the keys.
- `font` — the pixel canvas, coverage blending and glyph drawing.

`app/` holds the program around it: Wayland, evdev and uinput I/O, the font
rasterizer (floating point), and the main loop.
