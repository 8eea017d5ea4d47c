# podman_tui

A terminal user interface for podman: a dashboard of containers with their
resource use, and a manager for the environment variables and PATH entries
that the host's shell configuration (bash, zsh or fish) sets.

- `src/` is the library, verified with Verus: parsing and writing shell
  configurations, reading podman's and the kernel's reports, the order of the
  container list, the application's state and how each key changes it, what
  each screen shows, and the searches for the host's shell and terminal. Its
  laws (what loading gives back after saving, that saving twice writes what
  saving once wrote, that sorting is stable, that every key keeps the state
  well formed, among others) are proof functions beside the code they are about.
- `app/` is the program around it: the terminal, the podman command line, the
  host's files and environment, and drawing with ratatui, including the figures
  that are floating point.
- `tests/` runs the library on concrete values.
