# antigravity_upstream

The decisions behind update checks, upstream calls and shared HTTP clients of a
desktop proxy manager, verified with Verus.

- `src/` is the library. Every function has a contract that Verus proves; calls
  into other crates stand behind small wrappers whose doc comments say what is
  claimed of them. Laws that hold across functions are the proof functions whose
  names begin with `law_`.
  - `version`, `settings`, `platform`, `proxy_url`, `update_info`, `update_check`:
    when to look for updates, where, and what was found.
  - `status`, `session`, `json`, `headers`, `fallback`, `auxiliary`, `upstream`:
    which client a request goes through, what it carries, and which endpoint is
    asked next.
  - `credentials`, `hiding`, `redact`: what log lines may show.
  - `http`: the clients that the whole process shares.
  - `text`: the texts that all of them work on.
- `app/` does the work that the library decides on: the disk, the clock, the
  network, Homebrew. What other parts of the program supply, it takes through the
  traits in `app/host.rs`.
- `tests/` runs the library with the real crates linked.
