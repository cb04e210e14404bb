use std::any::Any;
use std::collections::HashMap;
use std::fmt;
use std::sync::Arc;

use comet_delta::error::DeltaError;
use comet_delta::expr::{BinaryExpr, Expr, ExprStruct, UnaryExpr, UnboundReference};
use comet_delta::scan_exec::{failure, scan_result, DeltaScanExec, ScanRead};
use comet_delta::schema::projected_read_schema;
use datafusion::arrow::datatypes::SchemaRef;
use datafusion::common::{DataFusionError, Result as DFResult};
use datafusion::execution::{SendableRecordBatchStream, TaskContext};
use datafusion::physical_expr::EquivalenceProperties;
use datafusion::physical_plan::collect;
use datafusion::physical_plan::execution_plan::{Boundedness, EmissionType};
use datafusion::physical_plan::stream::RecordBatchStreamAdapter;
use datafusion::physical_plan::{
    DisplayAs, DisplayFormatType, ExecutionPlan, Partitioning, PlanProperties,
};
use datafusion::prelude::SessionContext;
use delta_kernel::arrow::array::{Float64Array, Int64Array, RecordBatch};
use delta_kernel::arrow::datatypes::Schema as ArrowSchema;
use delta_kernel::committer::FileSystemCommitter;
use delta_kernel::engine::arrow_conversion::TryIntoArrow;
use delta_kernel::engine::arrow_data::{ArrowEngineData, EngineDataArrowExt};
use delta_kernel::engine::default::executor::tokio::TokioBackgroundExecutor;
use delta_kernel::engine::default::storage::store_from_url_opts;
use delta_kernel::engine::default::{DefaultEngine, DefaultEngineBuilder};
use delta_kernel::expressions::{Expression, Predicate, PredicateRef};
use delta_kernel::schema::{DataType, SchemaRef as KernelSchemaRef, StructField, StructType};
use delta_kernel::transaction::create_table::create_table as kernel_create_table;
use delta_kernel::transaction::CommitResult;
use delta_kernel::{DeltaResult, Error, Snapshot};
use tempfile::TempDir;
use url::Url;

type KernelEngine = DefaultEngine<TokioBackgroundExecutor>;

fn build_engine(table_uri: &str) -> (Url, KernelEngine) {
    let url = Url::parse(table_uri).unwrap();
    let store = store_from_url_opts(&url, HashMap::<String, String>::new()).unwrap();
    (url, DefaultEngineBuilder::new(store).build())
}

fn snapshot_schema(table_uri: &str) -> DeltaResult<KernelSchemaRef> {
    let (url, engine) = build_engine(table_uri);
    Ok(Snapshot::builder_for(url).build(&engine)?.schema())
}

fn scan_to_batches(
    table_uri: &str,
    columns: Option<&[String]>,
    predicate: Option<PredicateRef>,
) -> Result<Vec<RecordBatch>, DeltaError> {
    let (url, engine) = build_engine(table_uri);
    let snapshot = Snapshot::builder_for(url)
        .build(&engine)
        .map_err(DeltaError::Kernel)?;
    let read_schema = projected_read_schema(&snapshot.schema(), columns)?;
    let scan = snapshot
        .scan_builder()
        .with_schema_opt(read_schema)
        .with_predicate(predicate)
        .build()
        .map_err(DeltaError::Kernel)?;
    let mut batches = Vec::new();
    for data in scan.execute(Arc::new(engine)).map_err(DeltaError::Kernel)? {
        let data = data.map_err(DeltaError::Kernel)?;
        batches.push(data.try_into_record_batch().map_err(DeltaError::Kernel)?);
    }
    Ok(batches)
}

fn create_table(table_uri: &str, schema: KernelSchemaRef) {
    let (url, engine) = build_engine(table_uri);
    let _committed = kernel_create_table(url.as_str(), schema, "datafusion-comet/delta")
        .build(&engine, Box::new(FileSystemCommitter::new()))
        .unwrap()
        .commit(&engine)
        .unwrap();
}

async fn append(table_uri: &str, data: RecordBatch) -> u64 {
    let (url, engine) = build_engine(table_uri);
    let snapshot = Snapshot::builder_for(url).build(&engine).unwrap();
    let mut txn = snapshot
        .transaction(Box::new(FileSystemCommitter::new()), &engine)
        .unwrap()
        .with_operation("WRITE".to_string())
        .with_data_change(true);
    let write_context = txn.unpartitioned_write_context().unwrap();
    let file_metadata = engine
        .write_parquet(&ArrowEngineData::new(data), &write_context)
        .await
        .unwrap();
    txn.add_files(file_metadata);
    match txn.commit(&engine).unwrap() {
        CommitResult::CommittedTransaction(committed) => committed.commit_version(),
        _ => panic!("nobody else writes to this table"),
    }
}

/// The operator as a DataFusion plan.
#[derive(Debug)]
struct Plan {
    scan: DeltaScanExec,
    properties: Arc<PlanProperties>,
}

fn plan(
    table_uri: String,
    projection: Option<Vec<String>>,
    data_filters: &[Expr],
) -> Arc<dyn ExecutionPlan> {
    let full = snapshot_schema(&table_uri).map_err(DeltaError::Kernel);
    let scan = DeltaScanExec::try_new(table_uri, projection, data_filters, None, 0, 1, full)
        .unwrap();
    let properties = Arc::new(PlanProperties::new(
        EquivalenceProperties::new(Arc::clone(scan.schema())),
        Partitioning::UnknownPartitioning(1),
        EmissionType::Incremental,
        Boundedness::Bounded,
    ));
    Arc::new(Plan { scan, properties })
}

impl DisplayAs for Plan {
    fn fmt_as(&self, _t: DisplayFormatType, f: &mut fmt::Formatter) -> fmt::Result {
        f.write_str(&self.scan.fmt_as())
    }
}

impl ExecutionPlan for Plan {
    fn name(&self) -> &str {
        self.scan.name()
    }

    fn as_any(&self) -> &dyn Any {
        self
    }

    fn schema(&self) -> SchemaRef {
        Arc::clone(self.scan.schema())
    }

    fn properties(&self) -> &Arc<PlanProperties> {
        &self.properties
    }

    fn children(&self) -> Vec<&Arc<dyn ExecutionPlan>> {
        vec![]
    }

    fn with_new_children(
        self: Arc<Self>,
        _children: Vec<Arc<dyn ExecutionPlan>>,
    ) -> DFResult<Arc<dyn ExecutionPlan>> {
        Ok(self)
    }

    fn execute(
        &self,
        _partition: usize,
        _context: Arc<TaskContext>,
    ) -> DFResult<SendableRecordBatchStream> {
        assert!(matches!(self.scan.scan_read(), ScanRead::Whole));
        let read = scan_to_batches(
            self.scan.table_uri(),
            self.scan.projection().as_deref(),
            self.scan.predicate().clone(),
        );
        let batches = scan_result(Ok(read)).map_err(|e| DataFusionError::Execution(e.message))?;
        let stream = futures::stream::iter(batches.into_iter().map(Ok));
        let schema = Arc::clone(self.scan.schema());
        Ok(Box::pin(RecordBatchStreamAdapter::new(schema, stream)))
    }
}

fn kernel_schema() -> KernelSchemaRef {
    Arc::new(
        StructType::try_new(vec![
            StructField::nullable("id", DataType::LONG),
            StructField::nullable("score", DataType::DOUBLE),
        ])
        .unwrap(),
    )
}

fn batch(kschema: &KernelSchemaRef) -> RecordBatch {
    let arrow_schema: ArrowSchema = kschema.as_ref().try_into_arrow().unwrap();
    RecordBatch::try_new(
        Arc::new(arrow_schema),
        vec![
            Arc::new(Int64Array::from(vec![0i64, 1, 2, 3])),
            Arc::new(Float64Array::from(vec![0.0f64, 1.5, 3.0, 4.5])),
        ],
    )
    .unwrap()
}

fn is_null(column: &str) -> Expr {
    Expr {
        expr_struct: Some(ExprStruct::IsNull(Box::new(UnaryExpr {
            child: Some(Box::new(Expr {
                expr_struct: Some(ExprStruct::Unbound(UnboundReference {
                    name: column.to_string(),
                    datatype: None,
                })),
            })),
        }))),
    }
}

fn unsupported() -> Expr {
    Expr {
        expr_struct: Some(ExprStruct::Like(Box::new(BinaryExpr {
            left: None,
            right: None,
        }))),
    }
}

#[test]
fn delta_scan_exec_reads_table_through_datafusion() {
    let dir = TempDir::new().unwrap();
    let uri = Url::from_directory_path(dir.path()).unwrap().to_string();
    let kschema = kernel_schema();
    create_table(&uri, Arc::clone(&kschema));
    let rt = tokio::runtime::Runtime::new().unwrap();
    rt.block_on(append(&uri, batch(&kschema)));

    let exec = plan(uri, None, &[]);
    assert_eq!(exec.schema().fields().len(), 2);

    let ctx = SessionContext::new();
    let batches = rt.block_on(collect(exec, ctx.task_ctx())).unwrap();
    let rows: usize = batches.iter().map(|b| b.num_rows()).sum();
    assert_eq!(rows, 4);
}

#[test]
fn delta_scan_exec_projects_columns() {
    let dir = TempDir::new().unwrap();
    let uri = Url::from_directory_path(dir.path()).unwrap().to_string();
    let kschema = kernel_schema();
    create_table(&uri, Arc::clone(&kschema));
    let rt = tokio::runtime::Runtime::new().unwrap();
    rt.block_on(append(&uri, batch(&kschema)));

    let exec = plan(uri, Some(vec!["score".to_string()]), &[]);
    assert_eq!(exec.schema().fields().len(), 1);
    assert_eq!(exec.schema().field(0).name(), "score");

    let ctx = SessionContext::new();
    let batches = rt.block_on(collect(exec, ctx.task_ctx())).unwrap();
    assert_eq!(batches[0].num_columns(), 1);
    let rows: usize = batches.iter().map(|b| b.num_rows()).sum();
    assert_eq!(rows, 4);
}

#[test]
fn a_pushed_filter_skips_files_without_matching_rows() {
    let dir = TempDir::new().unwrap();
    let uri = Url::from_directory_path(dir.path()).unwrap().to_string();
    let kschema = kernel_schema();
    create_table(&uri, Arc::clone(&kschema));
    let rt = tokio::runtime::Runtime::new().unwrap();
    rt.block_on(append(&uri, batch(&kschema)));

    let ctx = SessionContext::new();
    let skipped = plan(uri.clone(), None, &[unsupported(), is_null("id")]);
    let batches = rt.block_on(collect(skipped, ctx.task_ctx())).unwrap();
    assert_eq!(batches.iter().map(|b| b.num_rows()).sum::<usize>(), 0);
    let kept = plan(uri, None, &[unsupported()]);
    let batches = rt.block_on(collect(kept, ctx.task_ctx())).unwrap();
    assert_eq!(batches.iter().map(|b| b.num_rows()).sum::<usize>(), 4);
}

#[test]
fn an_operator_keeps_what_it_was_given() {
    let exec = DeltaScanExec::try_new(
        "file:///t".to_string(),
        Some(vec!["id".to_string()]),
        &[is_null("score")],
        Some(3),
        1,
        4,
        Ok(kernel_schema()),
    )
    .unwrap();
    assert_eq!(exec.name(), "DeltaScanExec");
    assert_eq!(exec.fmt_as(), "DeltaScanExec: table_uri=file:///t");
    assert_eq!(exec.table_uri(), "file:///t");
    assert_eq!(exec.projection(), &Some(vec!["id".to_string()]));
    assert_eq!(
        **exec.predicate().as_ref().unwrap(),
        Predicate::is_null(Expression::column(["score"]))
    );
    assert_eq!(exec.schema().field(0).name(), "id");
    match exec.scan_read() {
        ScanRead::Split {
            version,
            partition_index,
            num_partitions,
        } => {
            assert_eq!(version, Some(3));
            assert_eq!(partition_index, 1);
            assert_eq!(num_partitions, 4);
        }
        ScanRead::Whole => panic!("four partitions are not read at once"),
    }
}

#[test]
fn no_partitions_count_as_one() {
    for partitions in [0, 1] {
        let exec = DeltaScanExec::try_new(
            "file:///t".to_string(),
            None,
            &[],
            None,
            0,
            partitions,
            Ok(kernel_schema()),
        )
        .unwrap();
        assert!(matches!(exec.scan_read(), ScanRead::Whole));
        assert!(exec.predicate().is_none());
    }
}

#[test]
fn a_schema_that_cannot_be_read_is_reported() {
    let unread = DeltaScanExec::try_new(
        "file:///t".to_string(),
        None,
        &[],
        None,
        0,
        1,
        Err(DeltaError::Kernel(Error::generic("no log"))),
    );
    assert_eq!(
        unread.unwrap_err().message,
        "delta: failed to read schema: Generic delta kernel error: no log"
    );
    let unknown = DeltaScanExec::try_new(
        "file:///t".to_string(),
        Some(vec!["x".to_string()]),
        &[],
        None,
        0,
        1,
        Ok(kernel_schema()),
    );
    assert_eq!(
        unknown.unwrap_err().message,
        "delta: failed to read schema: Generic delta kernel error: \
         column `x` not found in Delta schema"
    );
}

#[test]
fn a_failure_says_what_failed_and_why() {
    let failed = failure("delta: scan failed: ", &"disk full".to_string());
    assert_eq!(failed.message, "delta: scan failed: disk full");
}
