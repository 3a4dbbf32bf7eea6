# cheesecake

The verified core of a small axum web application skeleton.

- `src/` holds the decisions, with contracts checked by Verus:
  - `trace`: cutting an error's backtrace down to the application's frames;
  - `app_error`: the application's error, its text and the HTTP answers for
    failed requests;
  - `logging`: log file names (the timestamp is formatted by chrono, through
    a trusted item whose contract states chrono's format) and the filter
    directives added to the log filter;
  - `path_search`: canonicalizing a path that may not exist yet, as a search
    over its ancestors;
  - `routing`: request limits and static-file routes;
  - `view`: template globs, the context a page is rendered with (the
    data's fields and the development flag), the outcome of a render, and
    the live-reload watcher's rules. The render itself is a function the
    caller passes in (tera's `render` in the server): tera can panic on some
    templates (a sum of two floats that overflows), which no condition on a
    template set rules out, so the library leaves that call to its caller and
    states what it hands to it and what it makes of the outcome;
  - `lifecycle`: the hooks run around the server's start and shutdown;
  - `env`: the application's own settings.
- `app/` is the server: environment, file system, sockets, signals and the
  axum, tera, hotwatch and tracing plumbing, calling the library for each
  decision.
- `tests/` runs the library on concrete values.
