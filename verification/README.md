# metri_engine

The verified core of the metri engine, written in Verus. Every function in
`src/` carries a contract, and Verus proves each body against it.

## Layout

- `src/` — the library.
  - `text`, `numbers`, `json`: character-level text handling, integer
    reading, JSON string literals and decimal digits.
  - `sql_parse`: the SQL readers of the local lake engine — the entity of a
    query, its projected columns, `LIMIT`, `WITH` sub-queries, `WHERE`
    filters, the time window, and the sources of the final columns of
    comparison queries.
  - `lake`: time handling of the lake engine — record times, the query
    window, `date_trunc` buckets, and the schema types of record fields.
  - `athena`: polling for an Athena query and reading its result cells.
  - `quota`: reservation and settlement of token quotas, as state machines
    whose outside reads and writes are performed by the caller, and the laws
    that hold of them.
  - `iop`: the ingest pipeline, its saga, the quota guard step, error
    responses and fault dispatch.
  - `grants`, `session`, `interceptors`, `status`, `errors`: role grants,
    session tokens, request authentication and error mapping.
  - `handlers`: what the RPC handlers decide around their outside work —
    the tenant a request runs for, the plans of list, explore, query, bulk
    and transact requests, and the answers built from the engine's replies;
    `viz_meta` and `chunk`: the decoration, columns and rows of a query
    chunk; `routing`: the routing-rules query of the query service; `local_query`: the in-memory
    query of the local lake engine (plan, record selection, projection,
    ordering and limit).
  - `base64_text`: the base64 encodings the engine writes.
  - `eda`, `publishers`, `stream_writer`, `batch_write`, `glue`, `export`,
    `query_cache`, `hierarchy`, `seeder`, `tenant_guard`, `list_support`,
    `agent_config`, `audit`, `order`, `codice`: the remaining pieces of
    logic, each in the module named after it.
  - `sources`: the clock and the random identifiers.
- `tests/` — tests of the library on concrete values.
- `app/` — the code around the library: settings read from the
  environment, prompt files read from disk, JSON conversions (with the
  floating-point arithmetic that the library leaves out), the local lake
  engine's value reading and aggregates, the MessagePack and JSON wire forms
  of the event router's batch, and drivers for the group-hierarchy walk, the
  Athena poll and fault dispatch.
