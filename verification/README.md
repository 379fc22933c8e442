# teddy_sync

The rules of a sync service for a family: shared grocery lists, the configs and drawings of
its tablets, the streams that tell a device what changed, list invites, and the two helpers
that ask a language model. The rules are a Verus library: every function carries a contract,
and Verus proves it, except for the calls into other crates and std. Those stand in small
functions marked `external_body`, and in a few bodyless names for their results; what their
contracts claim is believed, and said above each of them.

## Layout

- `src/`: the library.
  - `sync/`: what one `POST /api/sync` does. `handler` plans a request and puts its reply
    together; `grocery/` decides about each grocery table; `config/` and `drawing` decide
    about a tablet's rows; `batching` and `tally` gather writes into runs; `versioning`,
    `deletes` and `rejections` hold what every table shares; `paging` and `download` bound a
    reply and say where it resumes, `resuming` and `catching_up` what coming back delivers;
    `device`, `scope_auth` and `limits` say who may write what, and how much.
  - `sync/stream`, `stream_limits`, `fanout`, `publisher` and `publish_conn`: event streams.
  - `sync/status`: whether a client has anything to sync.
  - `ai/`: prompts, budgets and the shape of a call.
  - `devices/`, `lists/`: registering tablets, minting and redeeming invites.
  - `text`, `ids`, `instant`, `json`, `error`: plain values the rest is stated over.
- `tests/`: the library from outside, on concrete values.
- `app/`: the service around it. It reads what a rule asks about from Postgres and Redis,
  does what the rule decides, and turns JSON into values and back.

## How a rule meets the database

A rule never reads a row itself. Where it needs a few rows it takes them as arguments; where
what it needs depends on what it has decided so far, it is a machine: `advance` takes the
answer to its last question and gives the next thing to do, until it is done.
