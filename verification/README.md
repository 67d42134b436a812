# bbcli

A command line client of a Bytebase server, for people and for agents.

- `src/` is the library: the rules of the program, written in Verus and proved.
  It resolves names to databases, drives the review flow of a change, shapes
  query results and schemas, reads the API catalog, decides what a login's
  redirect means, keeps the stored credentials and contexts consistent, and says
  when a token is refreshed and a call repeated.
- `app/` is ordinary Rust around it: the command line, the files and their
  locks, HTTP and the terminal. It performs what the library asks for and hands
  back what happened.
- `tests/` runs the library on concrete values.

## How the library speaks

Data types have a view, and contracts speak of views. What runs over the network
is a state machine: `resolve::Resolving`, `change::Proposal`,
`schema::Inspection` and `client::Exchange` take an event and say what to do
next. Functions named `law_...` state what holds of several operations together:
that only a single match resolves, that a rollout is created only through its
gates, that a failure names everything that already exists, that a logout leaves
no trace.

Calls into other crates (`base64`, `sha2`, `rand`, `serde_json`, `serde_yaml`,
the URL type of `reqwest`) stand behind small functions whose doc comments say
what is taken from them without proof.

## Data files

The API catalog (`openapi.yaml`) and the guides (`skills/*.md`) are read from
`vendor/bytebase`, or from the directory that `BBCLI_DATA` names.
