//! The scan operator: what it reads, and how it reports failures.

use vstd::prelude::*;

use std::sync::Arc;

use delta_kernel::arrow::datatypes::Schema as ArrowSchema;
use delta_kernel::expressions::Predicate;
use delta_kernel::schema::StructType;

use crate::error::{generic_message, reports, DeltaError, DeltaErrorView};
use crate::expr::Expr;
use crate::kernel::{junction, predicate_view, JunctionOp};
use crate::kernel_schema::{
    arrow_field, arrow_field_name, arrow_fields, field_name, gives_parquet_id_twice, schema_columns,
};
use crate::predicate::{
    filter_predicate, filter_predicates, nothing_is_pushed_for_dropped_filters, translate_filters,
};
use crate::schema::{
    has_column, outcome, projected_arrow_schema, projected_arrow_schema_comes_from_the_schema,
    projected_arrow_schema_is_pruned, projected_arrow_schema_names_the_missing_column, snapshot_arrow_schema, stands_for,
    wanted, well_formed, whole_arrow_schema_has_every_column,
};
use crate::semantics::{expr_truth, predicate_truth, pushed_predicate_is_exact, Row};

verus! {

/// A failure of the operator, in words.
#[derive(Debug)]
pub struct ExecutionError {
    pub message: String,
}

/// Leaf operator that reads a Delta table and emits Arrow batches.
///
/// With a projection only those columns are read, in order. The filters that the kernel can use
/// are pushed into it for file skipping. With more than one partition, an operator reads only the
/// files of its own partition, from a pinned version of the table.
#[derive(Debug)]
pub struct DeltaScanExec {
    table_uri: String,
    projection: Option<Vec<String>>,
    predicate: Option<Arc<Predicate>>,
    version: Option<u64>,
    partition_index: usize,
    num_partitions: usize,
    output_schema: Arc<ArrowSchema>,
}

/// What a [`DeltaScanExec`] is made of.
pub ghost struct DeltaScanExecView {
    pub table_uri: Seq<char>,
    pub projection: Option<Vec<String>>,
    pub predicate: Option<Arc<Predicate>>,
    pub version: Option<u64>,
    pub partition_index: usize,
    pub num_partitions: usize,
    pub output_schema: ArrowSchema,
}

/// How an operator reads its table.
#[derive(Debug, Clone, Copy)]
pub enum ScanRead {
    /// All files of the latest version, in one read.
    Whole,
    /// Only the files of one partition, from the pinned version.
    Split { version: Option<u64>, partition_index: usize, num_partitions: usize },
}

impl View for DeltaScanExec {
    type V = DeltaScanExecView;

    closed spec fn view(&self) -> DeltaScanExecView {
        DeltaScanExecView {
            table_uri: self.table_uri@,
            projection: self.projection,
            predicate: self.predicate,
            version: self.version,
            partition_index: self.partition_index,
            num_partitions: self.num_partitions,
            output_schema: *self.output_schema,
        }
    }
}

/// Whether `predicate` is what is pushed into the kernel for `filters`.
pub open spec fn pushed(predicate: Option<Arc<Predicate>>, filters: Seq<Expr>) -> bool {
    match predicate {
        Some(p) => filter_predicates(filters).len() > 0 && predicate_view(*p) == junction(
            JunctionOp::And,
            filter_predicates(filters),
        ),
        None => filter_predicates(filters).len() == 0,
    }
}

/// The names of the columns of a projection.
pub open spec fn projected(projection: Option<Vec<String>>) -> Option<Seq<Seq<char>>> {
    match projection {
        Some(columns) => Some(wanted(columns@)),
        None => None,
    }
}

/// The predicate that an operator pushes for its filters is true on a row exactly if each filter
/// that is taken over is. So on a row on which all filters are true it is true: no file with a
/// matching row is skipped. There is no predicate exactly if no filter is taken over.
pub proof fn pushed_predicate_loses_no_row(
    predicate: Option<Arc<Predicate>>,
    filters: Seq<Expr>,
    row: Row,
)
    requires
        pushed(predicate, filters),
    ensures
        predicate is None <==> forall|i: int|
            0 <= i < filters.len() ==> filter_predicate(#[trigger] filters[i]) is None,
        predicate matches Some(p) ==> (predicate_truth(row, predicate_view(*p)) is True
            <==> forall|i: int|
            0 <= i < filters.len() && filter_predicate(#[trigger] filters[i]) is Some
                ==> expr_truth(row, filters[i]) is True),
        predicate matches Some(p) ==> (forall|i: int|
            0 <= i < filters.len() ==> expr_truth(row, #[trigger] filters[i]) is True)
            ==> predicate_truth(row, predicate_view(*p)) is True,
{
    nothing_is_pushed_for_dropped_filters(filters);
    pushed_predicate_is_exact(row, filters);
}

/// The columns that an operator reads are those of its projection: as many, in the same order and
/// under the same names. Without a projection there is no selection.
pub proof fn projected_columns_are_the_projection(projection: Option<Vec<String>>)
    ensures
        projected(projection) is None <==> projection is None,
        projection matches Some(columns) ==> projected(projection) matches Some(names)
            && names.len() == columns@.len() && forall|i: int|
            #![trigger names[i]]
            #![trigger columns@[i]]
            0 <= i < columns@.len() ==> names[i] == columns@[i]@,
{
}

/// The schema that is shared.
spec fn shared_schema(schema: &Arc<StructType>) -> StructType {
    **schema
}

/// What is said if the schema could not be read.
pub open spec fn schema_failure(message: Seq<char>, error: DeltaErrorView) -> bool {
    reports(message, "delta: failed to read schema: "@, error)
}

/// A failure that says what failed, and then the error in words.
pub fn failure(what: &str, error: &String) -> (failure: ExecutionError)
    ensures
        failure.message@ == what@ + error@,
{
    let mut message = what.to_owned();
    message.append(error.as_str());
    ExecutionError { message }
}

impl DeltaScanExec {
    #[verifier::type_invariant]
    spec fn has_partitions(self) -> bool {
        self.num_partitions >= 1
    }

    /// Builds the operator over the table at `table_uri`, whose logical schema is `full` or could
    /// not be read. The output schema is pruned to the projection. Of `data_filters` those that the
    /// kernel can use are pushed into it. There is always at least one partition.
    pub fn try_new(
        table_uri: String,
        projection: Option<Vec<String>>,
        data_filters: &[Expr],
        version: Option<u64>,
        partition_index: usize,
        num_partitions: usize,
        full: Result<Arc<StructType>, DeltaError>,
    ) -> (exec: Result<Self, ExecutionError>)
        ensures
            full matches Err(error) ==> exec matches Err(e) && schema_failure(e.message@, error@),
            full matches Ok(full) ==> exists|schema: Result<ArrowSchema, DeltaErrorView>|
                {
                    &&& #[trigger] projected_arrow_schema(*full, projected(projection), schema)
                    &&& match schema {
                        Ok(output_schema) => exec matches Ok(exec) && {
                            &&& exec@.table_uri == table_uri@
                            &&& exec@.projection == projection
                            &&& pushed(exec@.predicate, data_filters@)
                            &&& exec@.version == version
                            &&& exec@.partition_index == partition_index
                            &&& exec@.num_partitions == if num_partitions == 0 {
                                1
                            } else {
                                num_partitions
                            }
                            &&& exec@.output_schema == output_schema
                        },
                        Err(error) => exec matches Err(e) && schema_failure(e.message@, error),
                    }
                },
            exec matches Ok(exec) ==> {
                &&& exec@.table_uri == table_uri@
                &&& exec@.projection == projection
                &&& exec@.version == version
                &&& exec@.partition_index == partition_index
                &&& exec@.num_partitions >= 1
                &&& num_partitions >= 1 ==> exec@.num_partitions == num_partitions
                &&& num_partitions == 0 ==> exec@.num_partitions == 1
            },
            exec matches Ok(exec) ==> (exec@.predicate is None <==> forall|i: int|
                0 <= i < data_filters@.len() ==> filter_predicate(#[trigger] data_filters@[i])
                    is None),
            exec matches Ok(exec) ==> exec@.predicate matches Some(p) ==> forall|row: Row|
                (#[trigger] predicate_truth(row, predicate_view(*p))) is True <==> forall|i: int|
                    0 <= i < data_filters@.len() && filter_predicate(#[trigger] data_filters@[i])
                        is Some ==> expr_truth(row, data_filters@[i]) is True,
            exec matches Ok(exec) ==> exec@.predicate matches Some(p) ==> forall|row: Row|
                (forall|i: int|
                    0 <= i < data_filters@.len() ==> expr_truth(row, #[trigger] data_filters@[i])
                        is True) ==> (#[trigger] predicate_truth(row, predicate_view(*p))) is True,
            full matches Ok(full) ==> exec matches Ok(exec) ==> projection is None ==> arrow_fields(
                exec@.output_schema,
            ).len() == schema_columns(*full).len(),
            full matches Ok(full) ==> exec matches Ok(exec) ==> projection is None ==> forall|
                p: int,
            |
                #![trigger arrow_fields(exec@.output_schema)[p]]
                0 <= p < schema_columns(*full).len() ==> arrow_field_name(
                    arrow_fields(exec@.output_schema)[p],
                ) == field_name(schema_columns(*full)[p].field),
            full matches Ok(full) ==> exec matches Ok(exec) ==> projection matches Some(columns)
                ==> arrow_fields(exec@.output_schema).len() == columns@.len(),
            full matches Ok(full) ==> exec matches Ok(exec) ==> projection matches Some(columns)
                ==> forall|i: int|
                #![trigger arrow_fields(exec@.output_schema)[i]]
                0 <= i < columns@.len() ==> stands_for(
                    arrow_fields(exec@.output_schema)[i],
                    columns@[i]@,
                    *full,
                ),
            full matches Ok(full) ==> exec matches Ok(exec) ==> projection matches Some(columns)
                ==> well_formed(*full) ==> forall|i: int|
                #![trigger arrow_fields(exec@.output_schema)[i]]
                0 <= i < columns@.len() ==> arrow_field_name(arrow_fields(exec@.output_schema)[i])
                    == columns@[i]@,
            full matches Ok(full) ==> exec matches Ok(exec) ==> projection matches Some(columns)
                ==> well_formed(*full) ==> forall|i: int, p: int|
                #![trigger arrow_fields(exec@.output_schema)[i], schema_columns(*full)[p]]
                0 <= i < columns@.len() && 0 <= p < schema_columns(*full).len()
                    && schema_columns(*full)[p].key == columns@[i]@ ==> gives_parquet_id_twice(
                    schema_columns(*full)[p].field,
                ) || arrow_field(schema_columns(*full)[p].field) == Some(
                    arrow_fields(exec@.output_schema)[i],
                ),
            full matches Ok(full) ==> projection matches Some(columns) ==> (exists|i: int|
                0 <= i < columns@.len() && !has_column(*full, (#[trigger] columns@[i])@))
                ==> (exec matches Err(e) && exists|i: int|
                0 <= i < columns@.len() && !has_column(*full, (#[trigger] columns@[i])@)
                    && e.message@ == "delta: failed to read schema: "@
                    + ("Generic delta kernel error: "@ + ("column `"@ + columns@[i]@
                    + "` not found in Delta schema"@))),
            full matches Err(DeltaError::Generic(m)) ==> exec matches Err(e) && e.message@
                == "delta: failed to read schema: "@ + ("Generic delta kernel error: "@ + m@),
            full matches Err(DeltaError::Kernel(error)) ==> generic_message(error) matches Some(m)
                ==> exec matches Err(e) && e.message@ == "delta: failed to read schema: "@
                + ("Generic delta kernel error: "@ + m),
    {
        proof {
            projected_columns_are_the_projection(projection);
        }
        let schema = match &full {
            Ok(full) => {
                let columns: Option<&[String]> = match &projection {
                    Some(columns) => Some(columns.as_slice()),
                    None => None,
                };
                let schema = snapshot_arrow_schema(full, columns);
                assert(projected_arrow_schema(**full, projected(projection), outcome(schema)));
                let ghost whole = shared_schema(full);
                let ghost answer = outcome(schema);
                let ghost names = projected(projection)->0;
                proof {
                    if projection is None {
                        whole_arrow_schema_has_every_column(whole, answer);
                    } else {
                        projected_arrow_schema_names_the_missing_column(whole, names, answer);
                        projected_arrow_schema_comes_from_the_schema(whole, names, answer);
                        if well_formed(whole) {
                            projected_arrow_schema_is_pruned(whole, names, answer);
                        }
                    }
                }
                schema
            },
            Err(error) => {
                return Err(failure("delta: failed to read schema: ", &error.text()));
            },
        };
        let output_schema = match schema {
            Ok(output_schema) => output_schema,
            Err(error) => return Err(failure("delta: failed to read schema: ", &error.text())),
        };
        let predicate = translate_filters(data_filters);
        Ok(
            DeltaScanExec {
                table_uri,
                projection,
                predicate,
                version,
                partition_index,
                num_partitions: if num_partitions == 0 {
                    1
                } else {
                    num_partitions
                },
                output_schema,
            },
        )
    }

    /// The operator on one line, for a plan display.
    pub fn fmt_as(&self) -> (line: String)
        ensures
            line@ == "DeltaScanExec: table_uri="@ + self@.table_uri,
    {
        let mut line = "DeltaScanExec: table_uri=".to_owned();
        line.append(self.table_uri.as_str());
        line
    }

    pub fn name(&self) -> (name: &'static str)
        ensures
            name@ == "DeltaScanExec"@,
    {
        "DeltaScanExec"
    }

    /// The schema of the batches that the operator emits.
    pub fn schema(&self) -> (schema: &Arc<ArrowSchema>)
        ensures
            **schema == self@.output_schema,
    {
        &self.output_schema
    }

    pub fn table_uri(&self) -> (uri: &String)
        ensures
            uri@ == self@.table_uri,
    {
        &self.table_uri
    }

    pub fn projection(&self) -> (projection: &Option<Vec<String>>)
        ensures
            *projection == self@.projection,
    {
        &self.projection
    }

    pub fn predicate(&self) -> (predicate: &Option<Arc<Predicate>>)
        ensures
            *predicate == self@.predicate,
    {
        &self.predicate
    }

    /// How the operator reads: all at once if there is a single partition, else the files of its
    /// own partition.
    pub fn scan_read(&self) -> (read: ScanRead)
        ensures
            read == if self@.num_partitions == 1 {
                ScanRead::Whole
            } else {
                ScanRead::Split {
                    version: self@.version,
                    partition_index: self@.partition_index,
                    num_partitions: self@.num_partitions,
                }
            },
            read matches ScanRead::Split { num_partitions, .. } ==> num_partitions > 1,
    {
        proof {
            use_type_invariant(self);
        }
        if self.num_partitions > 1 {
            ScanRead::Split {
                version: self.version,
                partition_index: self.partition_index,
                num_partitions: self.num_partitions,
            }
        } else {
            ScanRead::Whole
        }
    }
}

/// The batches that a scan task read. `joined` fails, with the reason in words, if the task itself
/// did, and holds what the read gave otherwise.
pub fn scan_result<B>(joined: Result<Result<Vec<B>, DeltaError>, String>) -> (batches: Result<
    Vec<B>,
    ExecutionError,
>)
    ensures
        match joined {
            Ok(Ok(read)) => batches == Ok::<Vec<B>, ExecutionError>(read),
            Ok(Err(error)) => batches matches Err(e) && reports(
                e.message@,
                "delta: scan failed: "@,
                error@,
            ),
            Err(error) => batches matches Err(e) && e.message@ == "delta: scan task failed: "@
                + error@,
        },
        joined matches Ok(Err(DeltaError::Generic(m))) ==> batches matches Err(e) && e.message@
            == "delta: scan failed: "@ + ("Generic delta kernel error: "@ + m@),
        joined matches Ok(Err(DeltaError::Kernel(error))) ==> generic_message(error) matches Some(m)
            ==> batches matches Err(e) && e.message@ == "delta: scan failed: "@
            + ("Generic delta kernel error: "@ + m),
{
    match joined {
        Ok(Ok(read)) => Ok(read),
        Ok(Err(error)) => Err(failure("delta: scan failed: ", &error.text())),
        Err(error) => Err(failure("delta: scan task failed: ", &error)),
    }
}

} // verus!
