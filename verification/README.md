# Extraspace

Turns an Android tablet into a second monitor for GNOME, over USB, with touch and with
the tablet's camera as a webcam.

`src/` is the logic, verified with Verus:

- `adaptive`: the bitrate controller.
- `binary64`: the rounding of IEEE 754 double precision, on bit patterns.
- `text`, `format`: text as sequences of characters, and numbers as text.
- `mutter`: asking mutter for a virtual monitor, placing it, and keeping its saved layouts
  clean.
- `session`: the engine's commands and states, the steps of a connection, what comes back
  from the tablet.
- `video`: captured frames and the cursor beside them, the encoder's settings, the pipeline.
- `ui`: settings, and what the window shows.

Properties of the library as a whole are stated as proof functions named `law_…`.

`app/` is the program around it: D-Bus, PipeWire, GStreamer, sockets and the window. It
performs what the library decides and hands back what happened.

`tests/` runs the library on concrete values.
