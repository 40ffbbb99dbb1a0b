# animus-subject-default

A task backend for Animus: a plugin that keeps tasks in a SQLite table and answers JSON-RPC
requests on standard input and output. Its rules are a Verus library, `src/`; the program around
them, which reads requests and talks to SQLite, is `app/`.

## Layout

| Where | What |
|---|---|
| `src/methods/` | the `task/*` methods: dispatch, patches, changes, listings, the subject view |
| `src/store/` | task payloads, table rows, sequential ids, the table as the laws see it |
| `src/backend.rs` | the standard subject verbs: list, get, update, delete, schema, health |
| `src/server.rs` | routes, watches, capabilities and the manifest |
| `src/config.rs` | the settings and their defaults |
| `src/value.rs`, `src/text.rs`, `src/rpc.rs` | documents, text and error replies |
| `src/clock.rs` | the current time |
| `src/laws/` | what holds across functions, stated and proved |
| `tests/` | the library at work, with a table in memory |
| `app/` | SQLite, the environment, standard input and output, the host protocol |

## How a request is answered

A request is answered in steps. `methods::try_dispatch` gives the first one: the reply, or a
question to the table. The program asks the table and hands the answer back to
`answer_listing`, `create_task`, `resume_task` or `settle`, which give the next step, until there
is a reply. Each of these functions has a contract that says exactly which step follows; the
functions that read the clock have a sibling that takes the time as an argument.

`store::table::request` puts the steps together over a table of payloads, and `laws::requests`
says what follows: what was created, changed or replaced is what is read, a refused request
changes nothing, and no request touches more than one task.

`task/delete` and `subject/delete` are answered by the subject verbs: `backend::delete` names the
row, `backend::deleted` gives the reply `{"ok": true}`, and `backend::announced_deletion` says what
watchers are told. `laws::deletions` says that the row is gone then, and no other.

## Settings

| Variable | Default | |
|---|---|---|
| `ANIMUS_DEFAULT_TASK_DB_PATH` | `.animus/subjects/tasks.db` | path to the database |
| `ANIMUS_DEFAULT_TASK_ID_PREFIX` | `TASK-` | prefix of new ids |
| `ANIMUS_DEFAULT_TASK_ID_PAD` | `3` | zero-pad width of new ids |

An empty variable counts as unset.

## What is not proved

Two things are taken on trust: that `String::push` appends a character, and that the time which
`chrono` gives is a text that ends in the offset of UTC. SQLite, serde and the host protocol are
used by `app/` only.
