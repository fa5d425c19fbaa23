# Cosmic Camera

A Wayland-native camera application for the COSMIC desktop: a live preview, photos, recordings and
a drawer to choose camera and resolution.

- `src/` is the application's logic, verified with Verus: which cameras and modes there are and how
  they are ranked (`camera`, `mode_list`, `mode`, `framerate`, `rate_order`), how pictures are packed
  and turned into photos (`frame`, `photo`), the media pipelines and the files they write
  (`pipeline`, `paths`), how a capture path is brought up (`startup`, `preview`) and how the
  application answers events (`model`, `model_laws`). It does no I/O.
- `app/` is the program around it: the window, the portal, the media framework, files and clock.
  It hands the library plain values and carries out the effects that the library asks for.
- `tests/` runs the library on concrete values.
