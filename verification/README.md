# schengen-client

A command line client for Synergy and Deskflow servers. Input that it receives from the
server is forwarded, by the RemoteDesktop portal and the emulated input (EI) protocol, to
the compositor.

The logic of the client is a library that is verified with Verus; the program around it
does the input and output.

- `src/` is the library. It holds no connection of its own: it is told of events as plain
  values, and answers with the requests and actions that are to be carried out.
  - `keymap` inverts an XKB keymap, which `compiler` has `kbvm` compile.
  - `device`, `region`, `event` and `ei` follow an EI connection: its seats, its devices
    and the screen that they make up.
  - `message` and `synergy` turn the messages of the server into emulated input.
  - `session` forwards the events of the server, and keeps the clipboards on both sides
    the same.
  - `args`, `retry`, `setup` and `portal` decide how the client starts.
  - `text` reads text.
- `app/` is the program: command line, portal, sockets and logging.
- `tests/` runs the library on concrete values.

Protocol objects are named by their object ids, and positions are whole numbers; the scale
factor of a region is carried along as the bits of a single-precision number.
