# uv_shell

A library, with contracts proved by Verus, for two small command-line tools
built on [uv](https://github.com/astral-sh/uv):

* `uv-shell` creates `.venv` with `uv venv` when it is missing (or on
  `--clear`), writes a `prompt = <project>-py<version>` line into
  `pyvenv.cfg`, and spawns an activated subshell; `uv-shell anchor` prints the
  activation commands for bash, zsh, fish, nushell, PowerShell or cmd.
* a `uv` wrapper that dispatches `uv <name>` to any `uv-<name>` executable on
  `PATH`, lists those plugins (`uv __complete`, cached for 60 seconds), and
  injects them into the real `uv`'s shell completions.

Layout:

* `src/` — the library:
  `text` (the text model: lines, joining, replacing, trimming),
  `decimal` (writing and reading `u64`), `order` (string order, sorted sets),
  `flags` (the `uv-shell` command line), `shell` (shells and activation),
  `prompt` (rewriting `pyvenv.cfg`), `completion` (plugin injection into
  completion scripts), `plugins` (the wrapper's command line, the real `uv`,
  plugin discovery and the plugin cache).
* `tests/` — tests of the library.
* `app/` — the programs: file system, processes, environment and clock. One
  binary serves both tools: it is the wrapper when installed as `uv`, and
  `uv-shell` under any other name.
