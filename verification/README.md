# warren

Warren installs command-line tools as isolated instances: each instance has
its own home, configuration, cache, data, state and temporary directories,
and a launcher that runs the tool inside them.

This crate is written in Verus. The library under `src/` holds the rules of
the runtime with contracts that Verus proves:

- `install::download` — classifying an installer source (piped fetch
  command, URL, local script, package) and hashing installer content;
- `install::rewriter` — the rewrite rules that move an installer's target
  locations into the instance, applying them, refusing path traversal, and
  the line diff of a rewrite;
- `install::detect`, `install::executor` — choosing the installed program,
  reading its version, and the environment a program runs in;
- `instance` — alias validation, the directory layout, sizes, metadata and
  the launcher script;
- `shell` — recognising the shell and its startup file, and adding the
  launcher directory to `PATH` once;
- `commands` — the steps of `dig` as a state machine, and the other
  commands' decisions and texts;
- `path`, `text` — paths and strings with the meaning `std` gives them;
- `foreign` — the calls into `regex`, `dirs`, `sha2` and `hex`, with the
  contracts their sources and documentation give.

`app/` is the `warren` program: command-line parsing, files, network,
prompts and processes, driving the library.
