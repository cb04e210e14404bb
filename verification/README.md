# comet_delta

The decisions of a native Delta Lake scan and append, verified with Verus, over the types of the
Delta kernel.

- `predicate` turns AND-ed Spark filters into one kernel predicate for file skipping, and drops
  what is outside the supported subset. `semantics` proves that what is kept means the same on
  every row, and that no matching row is lost.
- `schema` prunes a table schema to the columns that are read, in order, and gives its Arrow form.
- `scan_file` lists the data files that log replay reports; `split` shares them out among the
  partitions of a scan.
- `selection` cuts a file's deletion vector into the rows that each batch keeps.
- `commit` decides how the creation of a table ends, when an append commits again and how it ends.
- `scan_exec` holds a scan operator's settings and decides how it reads.
- `snapshot` checks table URIs and sums up snapshots.
- `kernel`, `kernel_schema`, `error` and `snapshot` declare what is trusted of the outside crates.

`app/` performs the I/O: the kernel's default engine, and the DataFusion operator around the
library's decisions, which takes the filter messages of a plan.
