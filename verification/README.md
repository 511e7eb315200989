# biyard_kit

Verified building blocks for Biyard's web tooling, written in Verus.

`src/` is the library, every function proved against its contract:

- route templates and handler classification for generated TypeScript
  clients (`route`, `rust_type`, `handler`, `codegen_files`);
- the plans of the derive and attribute macros: `DynamoEntity`
  (`dynamo`, `dynamo_fields`, `dynamo_plan`, and `dynamo_query` for the
  query filter, the page loop and bookmark text that its generated queries
  call at run time), `QdrantEntity`, `RestError`,
  `SubPartition`, `GtagEvent` (`gtag_derive`), `#[mcp_tool]` (`mcp_tool`) and
  the route macros' client stubs (`server_stub`);
- the MCP runtime's decisions: re-dispatching (`oneshot`), the per-secret
  service cache (`service_cache`) and tool lookup (`mcp_server`);
- the Google Analytics snippets and the context that buffers them
  (`gtag`, `gtag_state`, `json`);
- request signing for the REST client (`rest_api`).

`app/` reads Rust syntax with `syn` into the library's models, emits the
generated code with `quote`, and does the I/O: the app router, HTTP
requests, environment variables and files.

What `DynamoEntity` emits leaves out what the index definitions of the
per-field `#[dynamo(index = ..)]` settings would add: the extra index
attributes written into an item on `create`, `upsert` and the transaction
items (`indexed_fields`), and the query functions generated from those
definitions. Their layout is not part of this crate, so those writes store
the item as `serde_dynamo` serializes it. The rest of what the derive
generates, including the named index queries with their filters, the
all-pages loop and bookmarks, is emitted.

The code that `DynamoEntity` and `SubPartition` generate calls back into
`biyard_kit` at run time (`dynamo_query`, `dynamo_plan::update_expression`,
`dynamo_plan::compose_key`,
`sub_partition::partition_id`), so a crate using those derives depends on
it.
