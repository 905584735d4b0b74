# arangodb_types

A verified library for working with the documents of an ArangoDB database.

- `aql`: AQL commands, a `FOR` loop and its steps, and the text of the query.
- `collection`: the queries of a collection, and what their results mean.
- `send`: what to do after each reply of the server while a query is sent, batch by batch.
- `update`: updating a list of documents until the server has taken every one.
- `dates`: dates and times, and expirations kept as whole UNIX seconds.
- `model`: assembling the code of a model from its imports, its database type and its API types.
- `json`, `text`: the JSON text of keys, and helpers of the query writer.

`src/` is verified with Verus. `app/` is ordinary Rust around it: the client calls, the serde
impls and the token streams.
