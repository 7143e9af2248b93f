# ranitask

A desktop input recorder and player for Windows: it records keyboard and mouse
input into named sequences, plays them back (alone, as a queue, looped or
shuffled), binds them to global hotkeys, and takes `PLAY`/`STOP` commands from
other machines over a small line protocol. Background workers tap keys on a
schedule (burst, pet cycle) or when a watched pixel changes colour (HP monitor).

## Layout

- `src/` is the library, verified with Verus. Functions state their
  behaviour in `requires`/`ensures` (where a result rests on the clock or a
  random shuffle, what holds of every outcome), and the laws that span
  functions are proof functions (`lemma_*`):
  - `sequence`, `recorder`, `player`, `timing`: recorded events, what the hooks
    record, the playback schedule as a state machine, precise waits;
  - `network`: the receiver's commands, sessions and replies, the sender's lines;
  - `storage`: file names of saved sequences and the sorted listing;
  - `hotkeys`, `gui`, `config`: the meaning of key presses, and the decisions,
    texts and settings edits behind the toolbar and its dialogs;
  - `burst`, `pet_cycle`, `hp_monitor`, `worker`: the background workers;
  - `text`, `win32_helpers`: characters, numbers, key tables, UTF-16.
- `tests/` runs the library on concrete values.
- `app/` is the program around it: files, sockets, threads, the Win32 window,
  hooks and `SendInput`.
