use std::collections::HashMap;
use std::sync::Arc;

use comet_delta::commit::{
    append_start, append_step, create_outcome, AppendStep, CommitOutcome,
};
use comet_delta::error::DeltaError;
use comet_delta::scan_file::{self, DeltaScanFile};
use comet_delta::schema::projected_read_schema;
use comet_delta::{schema, snapshot};
use delta_kernel::arrow::array::{Float64Array, Int64Array, RecordBatch};
use delta_kernel::arrow::datatypes::{Schema as ArrowSchema, SchemaRef as ArrowSchemaRef};
use delta_kernel::committer::FileSystemCommitter;
use delta_kernel::engine::arrow_conversion::TryIntoArrow;
use delta_kernel::engine::arrow_data::{ArrowEngineData, EngineDataArrowExt};
use delta_kernel::engine::default::executor::tokio::TokioBackgroundExecutor;
use delta_kernel::engine::default::storage::store_from_url_opts;
use delta_kernel::engine::default::{DefaultEngine, DefaultEngineBuilder};
use delta_kernel::expressions::PredicateRef;
use delta_kernel::scan::state::ScanFile;
use delta_kernel::schema::{DataType, SchemaRef, StructField, StructType};
use delta_kernel::transaction::create_table::create_table as kernel_create_table;
use delta_kernel::transaction::CommitResult;
use delta_kernel::{Snapshot, SnapshotRef};
use tempfile::TempDir;
use url::Url;

type KernelEngine = DefaultEngine<TokioBackgroundExecutor>;

fn build_engine(table_uri: &str) -> Result<(Url, KernelEngine), DeltaError> {
    let url = Url::parse(&snapshot::table_url(table_uri)?).unwrap();
    let store =
        store_from_url_opts(&url, HashMap::<String, String>::new()).map_err(DeltaError::Kernel)?;
    Ok((url, DefaultEngineBuilder::new(store).build()))
}

fn open_snapshot(table_uri: &str) -> Result<(SnapshotRef, KernelEngine), DeltaError> {
    let (url, engine) = build_engine(table_uri)?;
    let snapshot = Snapshot::builder_for(url)
        .build(&engine)
        .map_err(DeltaError::Kernel)?;
    Ok((snapshot, engine))
}

fn snapshot_summary(table_uri: &str) -> Result<String, DeltaError> {
    let (snapshot, _engine) = open_snapshot(table_uri)?;
    Ok(snapshot::snapshot_summary(
        snapshot.version(),
        &snapshot.schema(),
    ))
}

fn report_scan_file(files: &mut Vec<scan_file::ScanFile>, file: ScanFile) {
    files.push(scan_file::ScanFile {
        path: file.path,
        size: file.size,
        transform: file.transform,
    });
}

fn list_scan_files(table_uri: &str) -> Result<Vec<DeltaScanFile>, DeltaError> {
    let (snapshot, engine) = open_snapshot(table_uri)?;
    let scan = snapshot.scan_builder().build().map_err(DeltaError::Kernel)?;
    let mut batches = Vec::new();
    for batch in scan.scan_metadata(&engine).map_err(DeltaError::Kernel)? {
        batches.push(
            batch
                .and_then(|b| b.visit_scan_files(Vec::new(), report_scan_file))
                .map_err(DeltaError::Kernel),
        );
    }
    scan_file::list_scan_files(batches)
}

fn scan_to_batches(
    table_uri: &str,
    columns: Option<&[String]>,
    predicate: Option<PredicateRef>,
) -> Result<Vec<RecordBatch>, DeltaError> {
    let (snapshot, engine) = open_snapshot(table_uri)?;
    let read_schema = projected_read_schema(&snapshot.schema(), columns)?;
    let scan = snapshot
        .scan_builder()
        .with_schema_opt(read_schema)
        .with_predicate(predicate)
        .build()
        .map_err(DeltaError::Kernel)?;
    let mut batches = Vec::new();
    for data in scan.execute(Arc::new(engine)).map_err(DeltaError::Kernel)? {
        let data = data.map_err(DeltaError::Kernel)?;
        batches.push(data.try_into_record_batch().map_err(DeltaError::Kernel)?);
    }
    Ok(batches)
}

fn snapshot_arrow_schema(
    table_uri: &str,
    columns: Option<&[String]>,
) -> Result<ArrowSchemaRef, DeltaError> {
    let (snapshot, _engine) = open_snapshot(table_uri)?;
    schema::snapshot_arrow_schema(&snapshot.schema(), columns)
}

fn create_table(table_uri: &str, schema: SchemaRef) -> Result<(), DeltaError> {
    let (url, engine) = build_engine(table_uri)?;
    let committed = kernel_create_table(url.as_str(), schema, "datafusion-comet/delta")
        .build(&engine, Box::new(FileSystemCommitter::new()))
        .map_err(DeltaError::Kernel)?
        .commit(&engine);
    create_outcome(match committed {
        Ok(CommitResult::CommittedTransaction(committed)) => {
            CommitOutcome::Committed(committed.commit_version())
        }
        Ok(CommitResult::ConflictedTransaction(conflicted)) => {
            CommitOutcome::Conflicted(conflicted.conflict_version())
        }
        Ok(CommitResult::RetryableTransaction(_)) => CommitOutcome::Retryable,
        Err(error) => CommitOutcome::Failed(error),
    })
}

async fn append(table_uri: &str, data: RecordBatch) -> Result<u64, DeltaError> {
    let (snapshot, engine) = open_snapshot(table_uri)?;
    let mut txn = snapshot
        .transaction(Box::new(FileSystemCommitter::new()), &engine)
        .map_err(DeltaError::Kernel)?
        .with_operation("WRITE".to_string())
        .with_engine_info("datafusion-comet/delta")
        .with_data_change(true);
    let write_context = txn
        .unpartitioned_write_context()
        .map_err(DeltaError::Kernel)?;
    let engine_data = ArrowEngineData::new(data);
    let file_metadata = engine
        .write_parquet(&engine_data, &write_context)
        .await
        .map_err(DeltaError::Kernel)?;
    txn.add_files(file_metadata);

    let mut pending = Some(txn);
    let mut step = append_start();
    loop {
        step = match (step, pending.take()) {
            (AppendStep::Finish(result), _) => return result,
            (AppendStep::Commit(state), Some(txn)) => {
                let outcome = match txn.commit(&engine) {
                    Ok(CommitResult::CommittedTransaction(committed)) => {
                        CommitOutcome::Committed(committed.commit_version())
                    }
                    Ok(CommitResult::ConflictedTransaction(conflicted)) => {
                        CommitOutcome::Conflicted(conflicted.conflict_version())
                    }
                    Ok(CommitResult::RetryableTransaction(retryable)) => {
                        pending = Some(retryable.transaction);
                        CommitOutcome::Retryable
                    }
                    Err(error) => CommitOutcome::Failed(error),
                };
                append_step(state, outcome)
            }
            (AppendStep::Commit(_), None) => unreachable!(),
        };
    }
}

fn rt() -> tokio::runtime::Runtime {
    tokio::runtime::Runtime::new().unwrap()
}

/// (id: long, score: double)
fn test_schema() -> SchemaRef {
    Arc::new(
        StructType::try_new(vec![
            StructField::nullable("id", DataType::LONG),
            StructField::nullable("score", DataType::DOUBLE),
        ])
        .unwrap(),
    )
}

fn make_batch(schema: &SchemaRef, start: i64, n: i64) -> RecordBatch {
    let arrow_schema: ArrowSchema = schema.as_ref().try_into_arrow().unwrap();
    let ids = Int64Array::from((start..start + n).collect::<Vec<_>>());
    let scores = Float64Array::from(
        (start..start + n)
            .map(|i| i as f64 * 1.5)
            .collect::<Vec<_>>(),
    );
    RecordBatch::try_new(
        Arc::new(arrow_schema),
        vec![Arc::new(ids), Arc::new(scores)],
    )
    .unwrap()
}

fn table_uri(dir: &TempDir) -> String {
    Url::from_directory_path(dir.path()).unwrap().to_string()
}

fn total_rows(batches: &[RecordBatch]) -> usize {
    batches.iter().map(|b| b.num_rows()).sum()
}

#[test]
fn opening_a_missing_table_returns_err() {
    assert!(snapshot_summary("file:///definitely/not/a/delta/table").is_err());
    assert!(list_scan_files("file:///definitely/not/a/delta/table").is_err());
    assert!(scan_to_batches("file:///definitely/not/a/delta/table", None, None).is_err());
}

#[test]
fn create_append_read_round_trip() {
    let dir = TempDir::new().unwrap();
    let uri = table_uri(&dir);
    let schema = test_schema();

    create_table(&uri, Arc::clone(&schema)).unwrap();
    // two separate commits => two versions, two data files
    let v1 = rt()
        .block_on(append(&uri, make_batch(&schema, 0, 5)))
        .unwrap();
    let v2 = rt()
        .block_on(append(&uri, make_batch(&schema, 5, 3)))
        .unwrap();
    assert!(v2 > v1, "each append should advance the table version");

    assert_eq!(
        list_scan_files(&uri).unwrap().len(),
        2,
        "expected two files"
    );

    let batches = scan_to_batches(&uri, None, None).unwrap();
    assert_eq!(total_rows(&batches), 8);

    // verify the actual values round-trip
    let mut ids: Vec<i64> = batches
        .iter()
        .flat_map(|b| {
            b.column(0)
                .as_any()
                .downcast_ref::<Int64Array>()
                .unwrap()
                .values()
                .to_vec()
        })
        .collect();
    ids.sort_unstable();
    assert_eq!(ids, (0..8).collect::<Vec<_>>());
}

#[test]
fn newly_created_table_is_empty_and_keeps_schema() {
    let dir = TempDir::new().unwrap();
    let uri = table_uri(&dir);
    create_table(&uri, test_schema()).unwrap();

    // No data files, no rows, but the schema is readable.
    assert_eq!(list_scan_files(&uri).unwrap().len(), 0);
    assert_eq!(total_rows(&scan_to_batches(&uri, None, None).unwrap()), 0);
    let summary = snapshot_summary(&uri).unwrap();
    assert!(summary.contains("version=0"), "summary was: {summary}");
    assert!(summary.contains("id") && summary.contains("score"));
}

#[test]
fn projection_reads_only_requested_columns_in_order() {
    let dir = TempDir::new().unwrap();
    let uri = table_uri(&dir);
    let schema = test_schema();
    create_table(&uri, Arc::clone(&schema)).unwrap();
    rt().block_on(append(&uri, make_batch(&schema, 0, 4)))
        .unwrap();

    // Project a single column.
    let only_score = vec!["score".to_string()];
    let batches = scan_to_batches(&uri, Some(&only_score), None).unwrap();
    assert_eq!(total_rows(&batches), 4);
    assert_eq!(batches[0].num_columns(), 1);
    assert_eq!(batches[0].schema().field(0).name(), "score");

    // Project both columns in reverse order; the output must follow the requested order.
    let reordered = vec!["score".to_string(), "id".to_string()];
    let batches = scan_to_batches(&uri, Some(&reordered), None).unwrap();
    assert_eq!(batches[0].num_columns(), 2);
    assert_eq!(batches[0].schema().field(0).name(), "score");
    assert_eq!(batches[0].schema().field(1).name(), "id");

    // The projected arrow schema matches the projected read.
    let projected_schema = snapshot_arrow_schema(&uri, Some(&only_score)).unwrap();
    assert_eq!(projected_schema.fields().len(), 1);
    assert_eq!(projected_schema.field(0).name(), "score");

    // An unknown column is an error.
    let missing = vec!["does_not_exist".to_string()];
    assert!(scan_to_batches(&uri, Some(&missing), None).is_err());
}

#[test]
fn creating_a_table_twice_fails() {
    let dir = TempDir::new().unwrap();
    let uri = table_uri(&dir);
    create_table(&uri, test_schema()).unwrap();
    assert!(create_table(&uri, test_schema()).is_err());
}

#[test]
fn no_columns_asked_for_means_the_full_schema() {
    let full = test_schema();
    assert!(projected_read_schema(&full, None).unwrap().is_none());
    let arrow = schema::snapshot_arrow_schema(&full, None).unwrap();
    assert_eq!(arrow.fields().len(), 2);
    assert_eq!(arrow.field(0).name(), "id");
    assert_eq!(arrow.field(1).name(), "score");
}

#[test]
fn a_projected_schema_has_the_fields_in_the_order_asked_for() {
    let columns = vec!["score".to_string(), "id".to_string()];
    let read = projected_read_schema(&test_schema(), Some(&columns))
        .unwrap()
        .unwrap();
    let expected = StructType::try_new(vec![
        StructField::nullable("score", DataType::DOUBLE),
        StructField::nullable("id", DataType::LONG),
    ])
    .unwrap();
    assert_eq!(*read, expected);
    assert!(projected_read_schema(&test_schema(), Some(&[]))
        .unwrap()
        .is_some());
}

#[test]
fn a_projected_arrow_schema_selects_fields_of_the_full_one() {
    let full = StructType::try_new(vec![
        StructField::nullable("id", DataType::LONG),
        StructField::not_null("day", DataType::DATE),
        StructField::nullable("name", DataType::STRING),
    ])
    .unwrap();
    let whole = schema::snapshot_arrow_schema(&full, None).unwrap();
    let some = vec!["name".to_string(), "day".to_string()];
    let projected = schema::snapshot_arrow_schema(&full, Some(&some)).unwrap();
    assert_eq!(projected.fields().len(), 2);
    assert_eq!(projected.field(0), whole.field(2));
    assert_eq!(projected.field(1), whole.field(1));
    assert!(!projected.field(1).is_nullable());
    assert!(projected.metadata().is_empty());

    let all: Vec<String> = whole.fields().iter().map(|f| f.name().clone()).collect();
    let again = schema::snapshot_arrow_schema(&full, Some(&all)).unwrap();
    assert_eq!(again, whole);

    let unknown = vec!["name".to_string(), "Day".to_string()];
    assert!(schema::snapshot_arrow_schema(&full, Some(&unknown)).is_err());
}

#[test]
fn a_parquet_id_given_twice_leaves_only_the_id_open() {
    let twice = StructField::not_null("id", DataType::LONG).with_metadata([
        ("parquet.field.id", "1"),
        ("PARQUET:field_id", "2"),
        ("comment", "key"),
    ]);
    let full = StructType::try_new(vec![
        twice,
        StructField::nullable("score", DataType::DOUBLE),
    ])
    .unwrap();
    let whole = schema::snapshot_arrow_schema(&full, None).unwrap();
    let columns = vec!["id".to_string()];
    let projected = schema::snapshot_arrow_schema(&full, Some(&columns)).unwrap();
    let without_id = |mut metadata: HashMap<String, String>| {
        let id = metadata.remove("PARQUET:field_id").unwrap();
        assert!(id == "1" || id == "2");
        metadata
    };
    let (a, b) = (projected.field(0), whole.field(0));
    assert_eq!(a.name(), b.name());
    assert_eq!(a.data_type(), b.data_type());
    assert!(!a.is_nullable() && !b.is_nullable());
    let rest = without_id(a.metadata().clone());
    assert_eq!(rest, without_id(b.metadata().clone()));
    assert_eq!(rest.len(), 1);
    assert_eq!(rest["comment"], "key");
}

#[test]
fn two_writers_that_create_one_table_do_not_both_succeed() {
    let dir = TempDir::new().unwrap();
    let (url, engine) = build_engine(&table_uri(&dir)).unwrap();
    let build = || {
        kernel_create_table(url.as_str(), test_schema(), "datafusion-comet/delta")
            .build(&engine, Box::new(FileSystemCommitter::new()))
            .unwrap()
    };
    let (first, second) = (build(), build());
    assert!(matches!(
        first.commit(&engine),
        Ok(CommitResult::CommittedTransaction(_))
    ));
    let outcome = match second.commit(&engine) {
        Ok(CommitResult::CommittedTransaction(committed)) => {
            CommitOutcome::Committed(committed.commit_version())
        }
        Ok(CommitResult::ConflictedTransaction(conflicted)) => {
            CommitOutcome::Conflicted(conflicted.conflict_version())
        }
        Ok(CommitResult::RetryableTransaction(_)) => CommitOutcome::Retryable,
        Err(error) => CommitOutcome::Failed(error),
    };
    assert!(matches!(outcome, CommitOutcome::Conflicted(0)));
    assert!(create_outcome(outcome).is_err());
}

#[test]
fn the_first_unknown_column_is_named() {
    let columns = vec!["id".to_string(), "ID".to_string(), "nope".to_string()];
    match projected_read_schema(&test_schema(), Some(&columns)) {
        Err(DeltaError::Generic(message)) => {
            assert_eq!(message, "column `ID` not found in Delta schema")
        }
        other => panic!("unexpected result: {other:?}"),
    }
}

#[test]
fn a_column_asked_for_twice_is_refused_by_the_kernel() {
    let columns = vec!["id".to_string(), "id".to_string()];
    assert!(matches!(
        projected_read_schema(&test_schema(), Some(&columns)),
        Err(DeltaError::Kernel(_))
    ));
    assert!(matches!(
        schema::snapshot_arrow_schema(&test_schema(), Some(&columns)),
        Err(DeltaError::Kernel(_))
    ));
}
