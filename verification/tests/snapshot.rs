use comet_delta::error::DeltaError;
use comet_delta::scan_exec::scan_result;
use comet_delta::scan_file::{list_scan_files, visit_scan_file, DeltaScanFile, ScanFile};
use comet_delta::snapshot::{parsed_table_url, snapshot_summary, summary_of, table_url};
use comet_delta::split::split_files;
use delta_kernel::expressions::Expression;
use delta_kernel::schema::{DataType, StructField, StructType};
use delta_kernel::Error;
use std::sync::Arc;

fn reported(path: &str, size: i64, transform: bool) -> ScanFile {
    ScanFile {
        path: path.to_string(),
        size,
        transform: if transform {
            Some(Arc::new(Expression::column(["a"])))
        } else {
            None
        },
    }
}

fn listed(path: &str, size: i64, has_transform: bool) -> DeltaScanFile {
    DeltaScanFile {
        path: path.to_string(),
        size,
        has_transform,
    }
}

#[test]
fn a_table_uri_is_normalized() {
    assert_eq!(
        table_url("HTTP://Example.com/a/../b").unwrap(),
        "http://example.com/b"
    );
}

#[test]
fn an_invalid_table_uri_is_reported() {
    match table_url("not a url") {
        Err(DeltaError::Generic(message)) => assert_eq!(
            message,
            "invalid table URI not a url: relative URL without a base"
        ),
        other => panic!("unexpected result: {other:?}"),
    }
}

#[test]
fn a_parse_failure_is_worded_with_the_uri() {
    match parsed_table_url("x:y", Err("broken".to_string())) {
        Err(DeltaError::Generic(message)) => {
            assert_eq!(message, "invalid table URI x:y: broken")
        }
        other => panic!("unexpected result: {other:?}"),
    }
    assert_eq!(
        parsed_table_url("ignored", Ok("file:///t/".to_string())).unwrap(),
        "file:///t/"
    );
}

#[test]
fn a_summary_has_version_and_schema() {
    assert_eq!(summary_of(0, "S"), "version=0 schema=S");
    assert_eq!(
        summary_of(18446744073709551615, ""),
        "version=18446744073709551615 schema="
    );
    assert_eq!(summary_of(1050, "{}"), "version=1050 schema={}");
}

#[test]
fn a_summary_shows_the_schema() {
    let schema = StructType::try_new(vec![StructField::nullable("id", DataType::LONG)]).unwrap();
    let expected = format!("version=3 schema={:?}", schema);
    assert_eq!(snapshot_summary(3, &schema), expected);
}

#[test]
fn a_summary_names_every_column() {
    let names = ["id", "Score_2", "_", "x9"];
    let schema =
        StructType::try_new(names.map(|name| StructField::nullable(name, DataType::LONG))).unwrap();
    let summary = snapshot_summary(12, &schema);
    let text = summary.strip_prefix("version=12 schema=").unwrap();
    for name in names {
        assert!(text.contains(&format!("\"{name}\"")), "{name} in {text}");
    }
}

#[test]
fn a_visited_file_is_added_at_the_end() {
    let mut files = vec![listed("a", 1, false)];
    visit_scan_file(&mut files, reported("b", -2, true));
    assert_eq!(files, vec![listed("a", 1, false), listed("b", -2, true)]);
}

#[test]
fn a_listing_holds_every_file_of_every_batch() {
    let files = list_scan_files(vec![
        Ok(vec![reported("a", 1, false), reported("b", 2, true)]),
        Ok(vec![]),
        Ok(vec![reported("c", 3, false)]),
    ])
    .unwrap();
    assert_eq!(
        files,
        vec![
            listed("a", 1, false),
            listed("b", 2, true),
            listed("c", 3, false)
        ]
    );
    assert!(list_scan_files(vec![]).unwrap().is_empty());
}

#[test]
fn a_listing_fails_with_the_first_failure() {
    let files = list_scan_files(vec![
        Ok(vec![reported("a", 1, false)]),
        Err(DeltaError::Generic("first".to_string())),
        Err(DeltaError::Generic("second".to_string())),
    ]);
    match files {
        Err(DeltaError::Generic(message)) => assert_eq!(message, "first"),
        other => panic!("unexpected result: {other:?}"),
    }
}

#[test]
fn partitions_share_out_the_files() {
    let files = || vec!["a", "b", "c", "d", "e"];
    assert_eq!(split_files(files(), 0, 2), vec!["a", "c", "e"]);
    assert_eq!(split_files(files(), 1, 2), vec!["b", "d"]);
    assert_eq!(split_files(files(), 0, 1), files());
    assert_eq!(split_files(files(), 6, 7), Vec::<&str>::new());
    assert_eq!(split_files(files(), 2, 2), Vec::<&str>::new());
}

#[test]
fn scan_failures_are_worded() {
    assert_eq!(scan_result(Ok(Ok(vec![1, 2]))).unwrap(), vec![1, 2]);
    let failed = scan_result::<i32>(Ok(Err(DeltaError::Kernel(Error::generic("gone")))));
    assert_eq!(
        failed.unwrap_err().message,
        "delta: scan failed: Generic delta kernel error: gone"
    );
    let task = scan_result::<i32>(Err("panicked".to_string()));
    assert_eq!(
        task.unwrap_err().message,
        "delta: scan task failed: panicked"
    );
}

#[test]
fn errors_read_as_the_kernel_words_them() {
    let own = DeltaError::Generic("m".to_string());
    assert_eq!(own.text(), Error::generic("m").to_string());
}
