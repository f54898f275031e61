# ciboulette2postgres

Builds PostgreSQL statements for JSON:API requests (reads, updates of a resource, updates
of one relationship, detachment of owned resources), with every value from the request
passed as a numbered parameter. The library is written in Verus: each builder states, in
its contract, the exact statement text, the parameter values and the tables it returns
(each with the table of its type and whether data or only identifiers come back), on
which inputs it fails with which error, and what it leaves written when it fails.

Layout of `src/`:

- `ident.rs`: identifiers without NUL, written as quoted PostgreSQL identifiers; the
  quoting is proved to be read back as the identifier it was written from.
- `text.rs`: string helpers and decimal notation of parameter numbers.
- `model.rs`, `error.rs`: resource types, requests, parameter values, errors; the maps of
  the model (properties, aliases, sparse fieldsets, attributes, relationships) are pairs
  kept in key order, which `wf` states and `keys_are_ordered` checks.
- `table.rs`: tables and common table expressions, and the table store.
- `graph.rs`: the store of resource types and relationships, held in a `petgraph` graph.
- `graph_walker.rs`: the relationships of a type, and the column assignments that an
  update document gives.
- `builder/`: the statement builder and the statements of each kind; `builder/shape.rs`
  proves that the text of a statement never depends on the values bound to its
  parameters.
