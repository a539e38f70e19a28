# llm_memory_graph

A graph of conversations with language models: sessions, prompts,
responses, tool invocations, agents and templates are nodes; typed edges
(PART_OF, RESPONDS_TO, INVOKES, INHERITS, ...) link them. The library keeps
the graph in memory and answers queries, conversation threads and walks
over it, and carries the surrounding pieces: wire conversions and the
service calls of the gRPC interface, plugin hooks and registry, event
buffers and counters, and the records exchanged with the model registry
and the data vault.

The library under `src/` is written in Verus: its functions carry
`requires`/`ensures` contracts over mathematical models (`Seq`, `Map`,
`Multiset`) and are proved to meet them. Calls into other crates (uuid,
chrono, serde_json, petgraph, the standard library's lowercase mapping and
clocks) sit behind small trusted wrappers whose contracts state what those
crates document.

Layout:

- `src/graph.rs` – the memory graph: nodes and edges by identifier, the
  operations that record conversations, batches, templates, and the laws
  that tie writes to reads.
- `src/query.rs`, `src/traversal.rs`, `src/order.rs` – queries (filters,
  newest-first order, paging, streaming), conversation threads, and
  breadth-/depth-first walks.
- `src/nodes.rs`, `src/edges.rs`, `src/ids.rs`, `src/props.rs` – the node,
  edge, identifier and property types, with typed edge properties.
- `src/grpc/` – wire types, conversions, request validation and the
  service calls over a graph.
- `src/plugin/`, `src/observatory/`, `src/integrations/`, `src/clients/`,
  `src/cli.rs` – plugins, metrics and event buffering, external service
  records and checks, and the reports of the command-line tool.
- `tests/` – tests run against the compiled library.
- `app/` – the parts that do input and output or use floating point:
  serialization with serde, settings from the environment, blocking
  retries, the archival loop, plugin file discovery, the awaiting of
  plugin hooks (the library's hook run decides after each) and the command
  handlers.
