# hmclauncher

A Windows launcher that finds a Java runtime (version 17 or later) and starts
the application jar it is bundled with. The decisions are a verified Verus
library; the Win32 calls are a thin program around it.

- `src/wide.rs`, `src/wide_path.rs`: UTF-16 strings that keep a trailing NUL,
  path joining, trimming and searching.
- `src/heap.rs`: a growable array with a verified stable insertion sort.
- `src/java.rs`: Java versions (parsing, ordering, display), the list of
  discovered runtimes, the candidate paths each source contributes, and the
  command line that starts the jar.
- `src/platform.rs`: architecture names, splitting the launcher's own path,
  buffer-growth rules for Win32 calls, file-attribute tests.
- `src/i18n.rs`: the localized error messages.
- `src/launcher.rs`: the search as a state machine: the host performs each
  action it asks for (check a file, read a version, list a directory, read the
  registry, launch, show a message) and reports the outcome.
- `app/`: `main`, the Win32 calls and console logging.
