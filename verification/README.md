# OneChat core

The verified core of the OneChat chat client. Every function in `src/` carries a Verus
contract; the modules hold the rules of the client:

- `prompt`, `rendering`: prompt templates with `{{name}}` placeholders, which variables they
  refer to, how each is evaluated and how the values are substituted.
- `history`, `prepare`, `context_usage`: which turns of a conversation a request carries, how a
  request is fitted into a model's context window, and the token estimates behind it.
- `reducer`, `continuation`, `run_loop`, `runner`, `tools`, `agent`, `active`, `live`: a running
  generation: how streamed events change the response and its request, how a continued
  response drops the replayed prefix, what the run loop writes and reports, how the tool-call
  loop goes from step to step (eight model steps at most), how MCP tool calls are routed and
  their results limited, which generations run, and how the loaded conversation follows them.
- `attachments`, `documents`, `composer`: which files can be attached and how they are checked
  and converted, the images of Office documents, pasted images.
- `export`, `html`: conversations as Markdown and as self-contained HTML.
- `title`, `navigation`, `workspace`, `commands`, `models`, `actions`, `editing`, `store`,
  `playback`: conversation titles, the conversation list, what the chat window shows, the
  command palette, choosing a model, confirming destructive actions, editing messages, the order,
  search, clearing and recovery of stored conversations, playback identifiers.

`app/` is a small command-line front end: it reads files, renders PDF pages and Office
documents with their converters, reads the environment and runs commands for prompt
variables, and computes the share of the context window left. `tests/` exercises the library.
