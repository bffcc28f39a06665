# kctx

The decision logic of `kctx`, an interactive Kubernetes context and namespace
switcher, written in Verus and proved against its contracts.

- `src/` — the verified library: the kubeconfig model and lookups
  (`kube_config`), the context and namespace commands (`cmd`), the namespace
  cache rules (`cache`), shell completion (`completion`), errors (`error`) and
  string helpers (`text`, `search`).
- `app/` — the program around it: command-line parsing, reading and writing
  the kubeconfig and cache files, talking to the cluster, and the terminal UI.
- `tests/` — tests of the library on concrete values.
