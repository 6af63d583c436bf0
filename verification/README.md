# rv_git

Drives git: opens and initializes repositories, fetches branches, tags and commits, checks them out,
and reads what git prints.

- `src/` decides. It runs nothing itself: an operation says which piece of outside work it waits for,
  and goes on when it is told what came back. `script.rs` states each operation as a script, `command.rs`
  the commands that it can ask for, `operation.rs` the steps that are proved to follow the scripts.
  `confinement.rs` and `laws.rs` prove what holds of every run; `text.rs` and `symref.rs` read git's
  output.
- `app/` acts. It runs git as a process, changes the file system, and feeds the replies back.
- `tests/` plays operations against scripted replies and against a small stand-in for git.
