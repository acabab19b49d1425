# gh-guard

A policy wrapper around the GitHub CLI (`gh`): it is installed as `gh`,
decides by a configurable policy whether a command runs at once, runs only
after a sudo authorization, or is refused, and runs a managed copy of the
real GitHub CLI by absolute path.

## Layout

- `src/` — the verified library (Verus). Every public function has a
  contract over a mathematical model of its inputs:
  - `command` — the command path of an argument list;
  - `policy` — the decision engine (longest matching rule, then the safest
    action), with its laws;
  - `redact` — redaction of sensitive flag values for logs, with its laws;
  - `config` — configuration sections, built-in defaults, validation;
  - `paths` — the XDG file layout;
  - `download` — asset selection, checksums, and extraction of the `gh`
    binary from `.zip` and `.tar.gz` archives with sanitized paths;
  - `gate` — the sudo challenge as a state machine;
  - `gh_manager` — update intervals, release queries, and the state
    machine that keeps a usable real GitHub CLI installed;
  - `update` — the update of the real GitHub CLI as a state machine that
    only installs files extracted from a download whose checksum matched;
  - `invocation` — what one invocation does with its arguments;
  - `exec`, `error`, `state`, `text` — supporting checks, errors, the
    update state and string predicates.
- `app/` — the program: environment, files, network, processes and
  logging, driving the library's decisions.
- `tests/` — tests of the library's public functions.
