# Runloop

Runloop runs *openings*: graphs of agents that hand values to one another, recorded so that a run
can be repeated and explained.

- `src/` is the library. Everything in it is verified with Verus against the contracts beside it.
  - `openings` reads openings from YAML, runs their graphs and replays recorded runs.
  - `bus` delivers messages, drops what is late or was seen, and speaks over sockets.
  - `broker` routes model requests, keeps answers, and holds to budgets.
  - `config` layers defaults, files and the environment.
  - `registry` finds agents and openings and reads what they declare.
  - `kb` keeps a ledger of events and the views made from it.
  - `crew`, `guests` and `local` are the agents, as native code, as programs, and how a node runs them.
  - `monitor` follows runs on a terminal.
  - `agents`, `content`, `control`, `error`, `ids`, `json`, `yaml`, `text`, `prose`, `paths`, `digest`,
    `armor` and `shelf` are what the others are built from.
- `tests/` runs the library.
- `app/` is the command line around it: files, sockets, databases, HTTP and the terminal.

Calls into outside crates stand behind small functions marked as external. Each says in its comment
what is claimed of the call.
