# castit

A keyboard-driven launcher for Wayland: application search, a command runner
(`>`), a file browser (`/`, `~`), web search (`?`), settings (`..`) and a
shortcut sheet (`??`).

The decisions of the launcher live in a library verified with Verus (`src/`):

- `desktop`: parsing `.desktop` files and building the application catalog
  (first entry of each name wins, sorted by lowercase name).
- `search`: fuzzy ranking of applications (by name and description) and of files
  with `nucleo-matcher` (at most eight results, best score first).
- `favorites`: favourite applications, launch counts and the dashboard shown for an
  empty search bar.
- `help`: the keyboard shortcut sheet.
- `files`: path queries, directory listings and folder navigation.
- `runner`: candidate programs, terminal launch plans and command outcomes.
- `config`, `i18n`, `web`, `keys`, `display`: settings cycling, translations,
  search URLs, key bindings and what each view shows.
- `state`, `update`: the launcher as a state machine from state and message to
  new state and a list of effects.
- `laws`: properties that span several operations.

`app/` is the program around it: the iced layer-shell window, the configuration
file, the file system, processes and icon lookup. It carries out the effects
that the library asks for.
