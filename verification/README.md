# dsh_pet

The logic of the DSH desk pet (a pixel whale that shows what DeepSeek
Harness is doing), written in Verus and verified.

- `src/` is the verified library: the state aggregator that turns DSH's
  session polls and pushed frames into a render snapshot (`state`, with its
  laws in `state_laws`), the JSON value model (`json`), the `session.list`
  call and the event sockets' decisions (`rpc`, `sse`), the address rules
  (`config`), the pixel-art pack (`assets`), the mouse state machine
  (`input`), the settings panel's address field and bubble animation
  (`renderer`), terminal-output cleaning (`term`), the DSH child process's
  arguments and URL (`child_dsh`), and small platform, tray, sound and
  screenshot decisions.
- `tests/` runs the library on concrete cases.
- `app/` is the program around it: the window and drawing (winit, tiny-skia,
  softbuffer, ab_glyph), the tray, sounds, the async network tasks, the
  child process, and the persisted configuration.

The bundled assets (sprites, emoji bitmaps, tray icon, sounds) are read at
run time from an `assets/` directory next to the executable.
