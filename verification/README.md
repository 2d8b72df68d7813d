# simtop

Management of iOS simulators in the terminal and for automation: a verified
library, and a program around it.

The library in `src/` holds the rules of the program, and Verus proves that the
code keeps them. The program in `app/` reads arguments, runs processes, reads
files and paints the terminal; it asks the library what to do and hands back what
came of it.

## Layout

- `error`, `model`, `json`, `wire`: errors with stable codes, the domain model, and
  both as JSON.
- `text`, `path`, `time`, `order`: characters, paths, the calendar and sorting.
- `backend`: validation, `simctl` calls and what they report, and the choice
  between CoreSimulator and `simctl`. `native` is the bridge's side of it, `xcode`
  finds the developer directory.
- `cli`, `output`: selectors, commands, and what they print.
- `config`, `project`: persisted choices and how they are saved, discovery of Xcode
  projects and their schemes.
- `build`, `run`: builds and runs as state machines, and what becomes of their
  output.
- `tui`: the two views as state machines (`simulators`, `projects`), which of them
  has the keys (`session`), their layout and their drawings.

Every function states in its contract what it returns. Properties that relate
several functions stand beside them as public proof functions.
