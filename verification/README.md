# itmr-dragonfable-launcher

A desktop launcher for DragonFable, in two parts.

- `src/` is a library of the launcher's rules, verified with Verus: which screen
  is shown and what input reaches the game, the game's logs and how they are
  gathered, read and shown, the messages between the launcher and the process of
  its log window, save data taken over from other launchers, and the look for
  newer releases. Every function states what it returns or changes; what holds of
  several of them together is stated by the public proof functions beside them.
- `app/` is the program around it: windows and drawing, files, processes, the
  network and the player.
- `tests/` runs the library on concrete values.

What the library takes from other crates it takes on trust, through the small
functions marked `external_body`: the order and the text form of versions
(`semver`), the members of a JSON object (`serde_json`), the host of a URL
(`url`), and from the standard library the lower case of a text and the decoding
of UTF-8.
