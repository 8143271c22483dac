# apcore_cli

A terminal adapter for apcore modules: module commands built from input
schemas, discovery (`list`, `describe`), the dispatch pipeline (validation,
input collection, preflight, approval, execution, rendering), exposure
filtering, ACL and OpenAPI reports, configuration and scaffolding.

## Layout

- `src/` is the library, written in Verus. Its public functions carry
  contracts over mathematical models (`Seq`, `Map`, `int`, and a view of each
  data type), and every function is proved against its contract; a few small
  helpers state nothing beyond what their callers need. The calls into outside crates
  (`serde_json`, `serde_yaml`, `serde_yaml_ng`, `comfy-table`, `regex`,
  `apcore-toolkit`)
  sit behind small trusted wrappers whose doc comments say what is assumed
  of them; what their results depend on is named, not restated.
- `tests/` runs the library on concrete inputs with the real outside crates
  linked.
- `app/` is the program: argument parsing, reading files and standard input
  (the bytes are parsed by the library), terminal output, the apcore
  registry and executor, and the loop that drives the library's dispatch
  state machine.
