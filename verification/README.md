# kim

Key input monitor for Windows: a daemon (`kimd`) counts keystrokes, typed
characters, clipboard shortcuts and mouse clicks, per application and per
programming language, and a command-line tool (`kim`) reports them.

Layout:

- `src/` is the verified library (Verus): the counters and trackers and their
  laws, the flush planning of the writer, the routing of input events, PID
  parsing, the registry value encoding, and every text report of the CLI,
  each with a contract over sequences of characters.
- `app/` is the program around it: Win32 hooks and UI Automation, SQLite
  storage, the registry, the PID file, threads and argument parsing. It hands
  plain values to the library and prints or stores what comes back.
- `tests/` runs the library on concrete values.
