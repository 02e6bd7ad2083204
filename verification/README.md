# cdx_rs

`cdx` is an interactive directory navigator for the terminal: a list of the
directories (Find), files (Search) or matching lines (Grep) below the current
directory, a fuzzy query, a preview tree, zoxide's frequent directories, and
a global search (`cdx -g <query>`).

## Layout

- `src/` — the library, verified with Verus. Each module states what its
  functions do in `requires`/`ensures` over spec functions:
  - `app` — the navigator's state and every decision on a key press, a tick
    or a result; key presses that change what is listed leave a refresh owed,
    which `complete_refresh` finishes with the listing the caller read.
  - `keys`, `config` — key bindings and settings.
  - `walker`, `icons`, `view` — which entries are listed and how they show.
  - `zoxide`, `score`, `search_state`, `search`, `grep` — the sources of the
    list and their ranking, debounce and cancellation.
  - `tree`, `git`, `preview`, `highlight` — the preview panel.
  - `text`, `paths`, `json` — text, paths and JSON, with the few calls into
    std, `dirs`, `serde_json`, `nucleo-matcher` and `regex` the library rests
    on (the trusted items, each with its contract in its doc comment).
  - `laws` — properties that span several operations.
- `tests/` — tests of the library.
- `app/` — the program: terminal, clock, file system and other programs.
