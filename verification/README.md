# donut

A keyboard-driven todo list for the terminal. Projects are Markdown files in a
directory (`~/.donut` unless `~/.donut.yml` names another `donut_dir`): a
`# Title` heading and one `- [ ] task` / `- [x] task` line per todo.

- `src/` is the verified library:
  - `text`, `paths`: characters, decimal numbers, Unix path joining;
  - `config`: where the project directory is;
  - `models`: todos, projects, and the order a project shows its todos in
    (open before done, newest first, stable), with its laws;
  - `markdown`: reading and writing a project file, and what a read gives back
    of a write;
  - `names`: file names for new projects;
  - `storage`: turning a file into a project, and file paths;
  - `ui`: the key handling as a transition function, and the invariant every
    key keeps;
  - `screen`: what each screen shows.
- `app/main.rs` is the terminal front end: configuration and file I/O, drawing
  with ratatui, and reading keys with crossterm.
- `tests/` run the library on concrete values.
