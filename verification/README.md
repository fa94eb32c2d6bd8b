# canary_agent

A library for agents that call functions: the rules by which a turn runs, with every rule stated as
a contract and proved by Verus.

- `kernel`: threads, turns and their records, and what a model is shown of them.
- `runtime`: a turn as a machine that says what to do next and is told what came of it; recovery
  after a crash; suspensions and their resolution; functions and their limits.
- `openai`: requests to the Responses API, the decoder of its streams, and when to try again.
- `revision`: specifications of agents under version control: digests, branches, history, diffs and
  three-way merges.
- `eval`: evaluations in simulated environments whose constraints come to light step by step.
- `tools`: sandbox policies and the web search function.
- `observability`: measurements as samples in families.
- `desktop`: the settings of the desktop program, and what it shows of a turn.
- `json`, `document`, `spelling`, `pretty`, `codec`, `fields`, `typed`: JSON documents, their texts,
  and the values in them.
- `shape`, `prune`, `shape_laws`, `written`: texts of records. Each field stands once, members that
  are no fields are passed over, and what the library writes reads back.

Modules named `laws`, and functions that begin with `law_`, hold what is true of several functions
together. `app/` does what the library asks for: it talks to the network, to files and to processes.
