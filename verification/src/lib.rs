//! Decisions of a native Delta Lake scan: filter push-down, column projection, file listing,
//! deletion vectors, commits and read planning, over the types of the Delta kernel.

pub mod commit;
pub mod error;
pub mod expr;
pub mod kernel;
pub mod kernel_schema;
pub mod predicate;
pub mod scan_exec;
pub mod scan_file;
pub mod schema;
pub mod selection;
pub mod semantics;
pub mod snapshot;
pub mod split;
pub mod text;
pub mod type_id;
