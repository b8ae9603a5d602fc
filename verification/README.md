# git_fuzzy

The `status` view of git-fuzzy as a zshrs plugin, with its logic verified by
Verus.

- `src/` is the verified library: the fzf command line (`status`), the
  reading of a pick and the session around it (`session`), the helper shim
  and the helpers fzf calls back (`helper`, `git`, `preview`), the
  live-reload watcher (`watch`), terminal geometry (`layout`), POSIX quoting
  (`quote`), and the text operations they rest on (`text`). Each public
  function states its result in its contract. The key bindings
  (`keys::cfg`, `Keys::new`) take the shell's parameters through a lookup
  function; their contracts fix which parameter each binding is read under
  and which default stands in for it. The `law_*` proof functions state
  what holds across calls.
- `app/` is the plugin around it: it runs git, fzf and the diff renderers,
  reads the environment and the shell's parameters, and registers the `gf`
  and `git-fuzzy` builtins with the zshrs host.
- `tests/` runs the library on concrete values.
