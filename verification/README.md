# bloi

Manages files by keeping them in a central store directory and replacing the
originals with symlinks to the stored copies, with optional git backup of the
store.

Layout:

- `src/` is the verified library. `store` decides how a target and its stored
  copy are made equal (the `Equalizer` state machine), when an entry is already
  stored and how paths are cleared; `utils` holds the step-by-step storing
  routine; `git` splits git's output into file names and finds conflicting
  files; `config` holds the configuration and its listing; `paths` and `text`
  hold the path and text operations, the calls into `std::path` among them;
  `path_tree`, `cli` and `error` hold the remaining types.
- `app/` is the program: argument parsing, the configuration file, running git,
  and all file-system work, performing the actions that the library decides.
- `tests/` runs the library on concrete values.
