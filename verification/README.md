# mrandomer

Sends random MIDI control changes, notes and system-exclusive messages,
described in a TOML patch file, to a MIDI output port.

- `src/` is the library, verified with Verus: the patch model and its
  defaults, the messages that each entry yields for given random draws, the
  rounds and their send/wait steps, the count of rounds, the choice of
  output port, and the parsers for hexadecimal bytes and port numbers.
  Random numbers come from `rand` through one trusted function.
- `app/` is the command-line program: arguments, reading and parsing the
  patch file, the MIDI connection, and the waits.
- `tests/` exercises the library on concrete patches.
