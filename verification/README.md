# geese

The core logic of the geese game engine and its editor, written in Verus
and proved against its contracts.

- `src/` is the verified library: the undo/redo history and editor
  commands, command groups, localization tables, input bindings and button
  state, event channels, the scene hierarchy, the relay server's registry of
  remote entities, the hierarchy and inspector panels' decisions, the build
  panel's state machine and build event sequences, panel visibility, health
  verdicts, and the text and association-list helpers they share.
- `app/` holds what works with the outside world around the library: the
  type-indexed event bus, file loading, the build thread and its processes,
  the HTTP health endpoint, serialization, and the values kept in floating
  point (pointer motion, gamepad axes, panel transparency, transforms).
- `tests/` exercises the library on concrete values.
