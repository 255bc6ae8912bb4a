# pesh

A small POSIX-style shell. The library (`src/`) is verified with Verus; the
binary (`app/`) does the terminal, file and process work around it.

- `eval`: rewriting redirection operators so that they stand apart
  (`normalize_redirections`), word splitting with shell quoting (`parser::split`),
  reading redirections (`eval_command`), the whole evaluation of a line
  (`eval_raw`, `eval_raw_checked`), and the directories of `PATH` (`path_entries`).
- `eval::command`: builtins and tasks (`CommandTask::try_from`), the command
  with its redirections (`composite::Command`), and what the builtins print
  (`builtins`).
- `eval::pipeline`: several commands sharing their redirections.
- `cli`: options, tab completion (`completion::PeshCompletion`) and the plain
  prompt theme (`theme::posix::PosixTheme`).

Each function states its result over mathematical models (`Seq<char>` for
strings); the laws of the library are public proof functions named `law_*`.
