# poly_router

A polyphonic microtonal MIDI router with a terminal interface. Every note
played on the input keyboard gets an output channel of its own, and a pitch
bend on that channel puts it on the pitch the current tuning gives it. The
tuning comes from equal divisions of an interval, from a guitar-style grid of
strings and frets (in EDO steps or just ratios), from Scala scale and
keyboard-mapping text, or from a few built-in temperaments. Settings can be
stored in nine preset slots.

## Layout

- `src/` is the verified library:
  - `midi` routes incoming messages: voice allocation (round robin over the
    enabled channels, MPE member channels or multi-timbral), note-offs,
    pass-through of system messages, broadcast and remapping of channel
    messages, pitch-bend messages;
  - `text` holds the text primitives (trimming, integer and float-literal
    grammar, searching);
  - `scala` reads Scala scale and keyboard-mapping text and maps keys to
    scale degrees; `grid` lays out the guitar grid; `tuning` names the
    built-in tunings;
  - `ui`, `modes` and `keys` hold the interface state and its reaction to
    each key press; `presets` loads and saves preset slots.
- `app/` is the program around it: the terminal drawing and event loop, the
  MIDI ports, the presets file, and the floating-point arithmetic that turns
  the checked tuning texts into frequencies.
- `tests/` runs the library on concrete inputs.
