# radkit

A verified core for LLM agents: skills, conversations and tasks, long-term memory, the Gemini
provider and what an agent tells its clients.

`src/` is the library. Every function in it is checked by Verus against its contract; the few
calls into outside crates stand behind small trusted functions whose doc comments say what is
claimed of them.

- `agent` builds agents and reads skills from files: the head of a skill file, its checks, and
  the answers of skills that a model works for.
- `models` holds messages to models, the requests and answers of Gemini, and the loop in which a
  model uses a computer.
- `tools` holds calls of tools, and the three tools that read and write memory.
- `runtime::context` is what tasks and conversations keep, and how progress is told.
- `runtime::execution` runs requests: `executor` decides, `flow` is the course of a request and
  of a task from the first message to the answer, as steps between what is to be done and what
  came of it.
- `runtime::memory` is long-term memory: sources and identifiers, chunks of documents, the
  interface of a store, a store in this process with relevance by keywords, and two views of it.
- `runtime::web` is what clients are told: the card of the agent, lists of tasks, streams,
  JSON-RPC and the development interface.
- `json`, `text`, `a2a` and `errors` are the values all of this is made of.

What a library cannot do by itself stands in `app/`: the network, files, the database, waiting,
and the copies of types that are written on the wire. It runs the flows of the library: it does
what a flow asks for and hands back what came of it.

`tests/` runs the library, with the outside crates linked.
