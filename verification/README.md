# cargonode

A tool for Node.js projects: it scaffolds packages (binaries, libraries,
TypeScript, workspaces), validates package names and paths, fills template
placeholders, resolves dependency versions against a registry, and runs
the tools a project declares in its `package.json`.

The decisions and text transformations live in the library under `src/`,
written in Verus: each public function states its result in its contract,
and the library's laws (such as "normalising a path twice changes nothing"
or "the journal never holds more entries than its limit") are proof
functions named `law_*`.

- `src/` — the verified library, one module per area (`config`,
  `integration`, `job`, `journal`, `cache`, `progress`, `util::platform`,
  `ops::replace`, `ops::validate`, `cn_core`, ...). File-system, clock and
  `PATH` queries, and the calls into `regex-syntax`, `sha2`, `chrono`,
  `semver`, `glob` and `which`, stand behind small trusted wrappers whose
  contracts say what those crates document. Where the library decides
  something from what the disk answers, a verified function takes the
  answer as an argument and states the result exactly, and the function
  that asks the disk states that its result is that one for some answer.
  (A bare query, such as whether a cache file exists, is passed on as the
  disk gave it.)
- `app/` — the command line: argument parsing, reading and writing files,
  running processes, and printing. It hands plain values to the library
  and carries out the plans it returns.
- `tests/` — tests of the library on concrete values, including one for
  each law.
