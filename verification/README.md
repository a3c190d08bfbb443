# thoughtgate_core

The core of a gateway between AI agents and MCP servers, verified with Verus. It
decides which tool calls are forwarded, denied or held for a person's approval,
keeps the tasks that await one, and hands each approved call out for execution: to
one caller at a time, and never again once its outcome is on record.

## Layout

- `src/` is the library. Every function has a contract, and Verus proves it.
  - `text`, `text_map`, `time`, `json`: strings, maps keyed by strings, times and
    JSON values, with their mathematical views.
  - `config`: the configuration, its validation, the patterns, and what is done to
    the text of a configuration file before it is parsed.
  - `governance`: the four gates (`evaluator`, `evaluation`), the task store and
    its state machine (`task`), the approval engine (`engine`, `blocking`),
    approval adapters (`approval`), lists (`list_filtering`) and the service
    (`service`).
  - `policy`, `protocol`, `jsonrpc`, `lifecycle`, `inspector`, `error`: policy
    loading, capabilities, message classification, the life of the service,
    inspectors and errors.
  - The files named `laws`, and the functions named `law_..`, state what holds of
    several operations together.
- `tests/` runs the library on examples, with the real outside crates.
- `app/` is the runtime: the clock, files and environment variables, the YAML and
  JSON forms, HTTP and the asynchronous loops. It is ordinary Rust.

## What is trusted

The library calls `dashmap`, `glob`, `serde_json`, `sha2`, `url` and a few
functions of std through small wrappers. The doc comment of each says what is
claimed of the outside function.

Time is passed in: a function that needs the present moment takes it as an
argument, and so do functions that need a new task identifier or an environment
variable. Work that waits (posting a request, calling upstream, asking a policy
engine) is done between two steps: the library says what to do, and takes the
outcome.
