# hermes_tail

A dual-pane terminal file manager in the style of Total Commander, with an assistant
(an OpenAI-compatible chat server such as llama.cpp on port 8080) that summarises files,
scans them for secrets, explains code, compares files, analyses folders, turns commands
in natural language into file operations, and more.

## Layout

- `src/` — the library, verified with Verus. It holds the application's state and what
  every command does to it (`app`), the panels (`panel`), dialogs (`dialog`), key bindings
  (`events`), the viewer (`viewer`), the assistant's state, prompts and reply handling
  (`ai`, `tasks`), the plan parser for file operations (`commands`), settings, notes and
  macros (`config`), archive browsing and packing plans (`fs::archive`, `ops::archive`),
  the folder analyses (`ops`, `sync`), the text the screen shows (`view`), and paths,
  text and ordering helpers (`path`, `text`, `order`). `laws` states properties that hold across operations.
  Work outside the program (the file system, the terminal, the network) is described by
  an `Effect` that a command returns.
- `app/` — the program around the library: the terminal loop, drawing with ratatui, file
  and archive input/output, the HTTP client, and the settings files.
- `tests/` — tests of the library.

## Keys

Arrows move, Enter enters a folder or archive, Backspace goes up, Tab switches panels,
Insert selects, Ctrl+A selects all. F3 views, F5 copies (Alt+F5 packs), F6 moves, F7 makes
a folder, F8 deletes, F2 or Shift+F6 renames. `/` starts a quick search, `=` a wildcard
filter, Ctrl+F a find. Alt+G/S/I/C/D/A/U/O/R/N/X/B and Ctrl+G start the assistant's tasks.
F1 shows all keys; Esc, Ctrl+Q or F10 quits; Ctrl+L lists the active panel again and
recomputes its size.
