# todotxt_tui

A keyboard-driven terminal interface for todo.txt files, whose decision logic
is a library verified with Verus.

## Layout

- `src/` — the verified library. Every operation on the application state
  (key handling per mode, panes, selection, filters and their history, the
  quick setter, the priority and date pickers, the line editor and its
  autocompletion, archiving, undo, the keymap, the status bar and the help
  text) is an executable function with a `requires`/`ensures` contract over
  spec functions on plain values. `src/laws.rs` states and proves the
  properties that span several calls: the sort, grouping and theme cycles,
  focus and filter round trips, undo, the filter history, the keymap's
  conflict handling, the ranking of completions, the tag swap of moving
  tasks between panes, key chords read the same whatever their case and
  surrounding blanks, and a step down and back up in the date picker.
- `tests/` — the scenarios, run against the compiled library.
- `app/` — the program around the library: argument parsing, reading and
  writing the todo, done, configuration and state files, the terminal
  (input events and drawing), the clipboard and the external editor. It hands
  the library plain values and performs the actions the library decides on.

## Checking

The trusted items are six small wrappers: two around `chrono` (the weekday
of a calendar date, and parsing a `YYYY-MM-DD` date) and four around `std`
functions that vstd does not specify (`String::push`, `char::from_u32`,
`str::to_lowercase`, `char::is_alphabetic`). Each contract states or names
what the call returns, and nothing more: the weekday is stated as the
proleptic Gregorian day count modulo 7; the parsed date, the parse error's
message, lower-casing and the alphabetic class are named.
