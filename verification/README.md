# backend

The logic of a StarRocks administration backend, verified with Verus.

- `src/` is the verified library:
  - `password`: hashing passwords as `$<rounds>$<salt>$<key>` with PBKDF2-HMAC-SHA256
    and Base64, and checking a password against a stored hash. A password always
    checks against the hash made from it.
  - `catalog`: database and table records, the SQL statements built from requests,
    and the descriptions read back from `SHOW` results; deleting a database or
    table that is not listed is answered as not found.
  - `cluster`: cleaning and validating cluster registrations, organization
    resolution, the dynamic update statement (one bound parameter per placeholder),
    and what follows activation and deletion; a model of an organization's active
    flags shows that registration, activation and deletion each leave exactly one
    active cluster.
  - `health`: health checks of a cluster's nodes; the overall status is always the
    worst status among the checks.
  - `text`: character-level helpers with exact specifications (decimal formatting and
    parsing, trimming, search, splitting, joining).
- `tests/` exercises the library on concrete values.
- `app/` is the HTTP service around the library: axum handlers, the SQLite store of
  clusters, the MySQL-protocol client of StarRocks, and serde copies of the records.
