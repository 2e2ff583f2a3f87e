# phantom_cap

Phantom Cap indexes Sui upgrade caps — their creation, transfers and package
upgrades — and shows them on a small web site.

- `src/` is the verified library (Verus): the decisions the indexer takes on
  each checkpoint (`created`, `upgrade_cap_handler`, `transfer`, `upgrade`,
  over the checkpoint model in `checkpoint`), the rows it writes (`models`,
  `cap_models`), the policy codec (`policy`), and the text the web backend
  shows (`format`, `decimal`, `address`).
- `app/` is the unverified glue: converting Sui checkpoints into the
  library's model, the indexer pipelines, database access and migrations.
- `tests/` exercises the library on concrete values.

Row times are carried as milliseconds since the Unix epoch; `app/` converts
them to and from `chrono::DateTime<Utc>` at the database edge. Relative times
are computed on `UtcTime`, which holds a `DateTime<Utc>`'s seconds and
nanoseconds in full.
