# coding_agent

A terminal coding assistant that talks to the Messages API, streams replies, runs tools
(bash, file read, file edit, glob, worker agents) with the user's permission, and keeps
its conversation within a token budget.

- `src/` is the verified library: the assistant's data, rules and decisions, with their
  contracts, and thin trusted wrappers around the outside crates that it calls.
  - `text`: character-level text operations (counting and replacing occurrences, lines,
    splitting, trimming, decimal numbers) proved against their specifications.
  - `edit`: unique search-and-replace edits.
  - `api`: the conversation's data.
  - `stream`: server-sent-event framing and the assembly of a streamed reply.
  - `engine`: the conversation, tool registry, token estimate, compaction, the request,
    and the answering of tool uses.
  - `tui`: the interactive session's state and its reactions to keys and events.
  - `search`: glob and regex search results, limited and sorted.
  - `config`: settings and their cascade.
  - `coordinator`: bookkeeping of worker agents.
  - `tools`: the built-in tools' arguments, results and messages.
  - `mcp`: JSON-RPC request numbering and response checks.
- `app/` is the program around it: the command line, HTTP, processes, files, the terminal,
  the tools' own work, and the awaiting of replies and answers.
- `tests/` exercises the library on concrete values.
