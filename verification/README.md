# computer-use-linux

The decisions behind computer use on a Linux desktop, written in Verus and
verified: what a machine is ready for and how to set it up, launching
applications by their desktop files, taking pictures of the screen, moving an
absolute pointer, and listing windows.

- `src/` is the verified library. It runs no command and opens no file. Where
  work alternates with the system, the library has a machine: it says what it
  asks for next (a command, a file, whether a path exists), is told what came of
  it, and in the end gives the result. Each machine has a mathematical state, a
  step function, and laws over every sequence of answers.
- `app/` is ordinary Rust around it: processes, files, sockets, the message bus,
  the uinput device, and copies of the reports that can be serialised.
- `tests/` runs the library on concrete values.

| Module | What it decides |
| --- | --- |
| `text`, `scan`, `number`, `order`, `bytes`, `text_map` | text, numbers and maps |
| `environment`, `process`, `session`, `paths` | the desktop session that a process belongs to |
| `command`, `probes`, `socket`, `check` | looking at one part of the system |
| `report`, `doctor`, `readiness`, `capability`, `windowing` | what the machine is ready for |
| `atspi`, `setup`, `ydotool` | setting accessibility and input up |
| `desktop`, `shell`, `launch` | finding, listing and launching applications |
| `png`, `base64_text`, `uri`, `screenshot` | pictures of the screen |
| `abs_pointer` | the absolute pointer and its gestures |
| `ewmh` | the windows of X11 window managers |
