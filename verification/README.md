# storage_cassandra

The verified core of a storage backend that serves the DynamoDB interface from
Apache Cassandra.

The library decides: which statements a request turns into and what they bind, what
a response row means, which step follows which outcome, and which error is
reported. It does no I/O. Every function states what it returns, and Verus proves
it; of the time and of random numbers, only what holds of each of them. The server
around it runs the statements and hands the rows back.

## Layout

- `src/` is the library.
  - `text`, `ids`, `sorting`: strings, identifiers and ordering.
  - `model`, `error`, `cql`, `cassandra_util`: items and keys, errors, statements
    with their bound values, and result rows.
  - `config`, `engine`, `bootstrapper`: configuration, keyspaces, and setting the
    backend up.
  - `catalog_store`, `admin_store`, `authorization_store`, `credential_store`: the
    catalog.
  - `create_table`, `delete_table`, `backup_engine`: tables and backups.
  - `gsi_queue`, and under `data/` the data plane: table layout (`ddl`), indexes
    (`index`), single items (`base_row`, `condition`, `claim`, `effects`,
    `put_get_item`, `delete_item`, `update_item`), `query`, `scan`, expiration
    (`ttl`), and transactions (`data_engine`, `transact_get`, `transactions`,
    `transaction_rows`, `transaction_ledger`, `ledger_key`,
    `transaction_recovery`).
- `tests/` runs the compiled library on concrete values.
- `app/` is ordinary Rust: the session, the loops that carry out what the library
  decides, the stored forms of its types, and the trait through which the backend
  uses the server that it is linked into.

## Reading the contracts

Contracts speak of views: the text of a string, the map of an item, the text and the
bound values of a statement. A function that plans a request returns the statement
to run and states it letter for letter. A request that alternates between the
database and a decision is a state machine: one function takes the state and the
outcome of the step before and returns the next state. Functions whose names begin
with `law_` prove what holds of several of them together.

What the library takes on trust from other crates stands in functions marked
`external_body`, each with a comment that says what is claimed of the call.
