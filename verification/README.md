# netshare

A host service that lets phones act as game controllers and choose an
audio stream to receive.

- `src/` is the verified library (Verus): text handling with exact
  specifications (`text`), the audio sources read from the sound server's
  listings (`source`), the virtual sink's set-up (`sink`), the Linux and
  Windows virtual controllers (`device`, `gamepad`), the connected clients
  (`host`), the controller apps' messages (`parse`) and the audio picker's
  state (`picker`).
- `app/` is the program around it: the web socket server, the sound server
  commands, uinput / ViGEm devices, and the picker window.
- `tests/` runs the library on concrete inputs.
