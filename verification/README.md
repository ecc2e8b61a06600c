# SnipeSpotter service

A Windows service that keeps a Snipe-IT inventory in step with the hardware of
the machine it runs on: it finds the computer and its monitors, plans what has
to change, carries the changes out exactly once, and answers an administrator
over a named pipe.

- `src/` is the library. Everything the service decides stands there, with a
  contract, and is proved with Verus: the write-ahead journal and its recovery,
  the execution of a plan, replay after a crash, crash-resistant file
  replacement, the rules for commands and schedules, request framing,
  pagination, and the checks on identities and access lists.
- `tests/` runs the library on concrete values.
- `app/` does the input and output. Each loop in it asks the library what to do
  next, does it, and reports what came of it.

Work that needs the outside world is written as a pair of functions on plain
values: one says what to do next, the other takes note of the outcome. A
`..View` type is the mathematical value of an executable type, and the
functions that relate the two are called `deep_view`.
