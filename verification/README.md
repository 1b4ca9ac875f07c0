# Helium Gecko

An always-on-top, transparent browser window. The library (`src/`) holds the
state and decisions of the application, each with a contract proved by Verus:

- `config`: the settings, their defaults, and what loading a settings file decides;
- `session`: the open windows, the session file's fallback, and updates from other windows;
- `ipc`: the framing of the session messages that windows send one another
  (line splitting, UTF-8 validation, carriage-return removal);
- `shortcuts`: the keyboard shortcuts;
- `overlay`: the close and settings buttons and the opacity slider's visibility;
- `platform`, `window_manager`: how a window is built and what the session records of it;
- `engine`: the interface of a browser engine.

`app/` is the program around it: command-line arguments, files, the TCP
channel, the window toolkit, OpenGL, egui and the browser engine.
