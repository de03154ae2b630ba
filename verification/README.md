# octo_dl

The core of a download manager for MEGA: what the application decides, apart from the network,
the disk and the terminal. It is written in Verus, and the functions of the library are proved
against their contracts.

Some contracts are believed, not proved: those of the wrappers around other crates and the standard
library (the set that keeps its order in `ordered`, identities in `ids`, JSON strings and `Debug`
texts in `bookmarklet`, new keys in `bootstrap`, the home directory in `requests`), and those that
`text` and `html` give to functions of the standard library. Each says above it what is believed of
which function.

## Layout

- `src/` is the library.
  - `ids`, `ordered`, `sorted`, `text`, `paths`: identities, collections that keep an order, texts
    and paths.
  - `settings`, `model`, `events`: settings, what is known of files and packages, and the events
    and requests that tasks exchange.
  - `tracking`, `app`, `actions`, `commands`, `packages`, `dispatch`, `shutdown`: the state of the
    application and what it does on events and requests. A handler gives the steps that follow,
    in their order; whoever runs the application carries them out.
  - `effects`, `batching`, `runtime`, `rows`, `session`, `persistence`: what the core asks for,
    what is put off and done once, the loop without a terminal, and saving sessions.
  - `bootstrap`, `login`: starting and logging in.
  - `requests`, `batch`, `duplicates`, `collection`, `task`, `scheduler`, `verification`: the
    download task, from the request to the transfer.
  - `scheduler_laws`: what holds of every run of the scheduler.
  - `dashboard`, `projection`, `web`, `html`, `bookmarklet`: what is published, and the web server.
- `tests/` runs the library.
- `app/` is the application around it: the web server, the tasks, the clock, files and serde. It
  is put together with a core, an engine and a store of configurations, which `app/ports.rs`
  describes.
