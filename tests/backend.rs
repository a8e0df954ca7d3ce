use parseable_storage::config::{S3Config, CONNECT_TIMEOUT_SECS};
use parseable_storage::storage::{
    dates_from_prefixes, probe_of, select_streams, should_multipart, stream_dirs, stream_metadata_key,
    query_table_options, table_urls, tally_deletes, upload_step, ObjectStorageError, Probe, StoreFailure,
    UploadAction, UploadEvent, UploadState, MULTIPART_CHUNK_SIZE,
};

fn strings(v: &[&str]) -> Vec<String> {
    v.iter().map(|s| s.to_string()).collect()
}

#[test]
fn list_streams_keeps_only_streams_with_metadata() {
    let dirs = stream_dirs(&strings(&["orders", "users"]));
    assert_eq!(dirs, strings(&["orders", "users"]));
    let r = select_streams(&dirs, vec![Probe::Present, Probe::Absent]);
    assert_eq!(r, Ok(strings(&["orders"])));
}

#[test]
fn list_streams_fails_on_probe_error() {
    let dirs = strings(&["a", "b", "c"]);
    let r = select_streams(
        &dirs,
        vec![
            Probe::Present,
            Probe::Failed(ObjectStorageError::ConnectionError("reset".to_string())),
            Probe::Failed(ObjectStorageError::UnhandledError("later".to_string())),
        ],
    );
    assert_eq!(r, Err(ObjectStorageError::ConnectionError("reset".to_string())));
}

#[test]
fn stream_dirs_take_first_segment() {
    let r = stream_dirs(&strings(&["orders/", "users/2024", "", "plain"]));
    assert_eq!(r, strings(&["orders", "users", "plain"]));
}

#[test]
fn stream_metadata_key_is_under_the_stream() {
    assert_eq!(stream_metadata_key("orders"), "orders/.stream.json");
}

#[test]
fn dates_are_stripped_of_stream_prefix() {
    let r = dates_from_prefixes(
        "logs",
        &strings(&["logs/date=2024-01-01", "other/date=x", "logs/date=2024-01-02", "logsx/y"]),
    );
    assert_eq!(r, strings(&["date=2024-01-01", "date=2024-01-02"]));
}

#[test]
fn table_urls_empty_is_none() {
    assert_eq!(table_urls("bucket", &Vec::new()), None);
}

#[test]
fn table_urls_are_fully_qualified() {
    let r = table_urls("bk", &strings(&["app/date=1", "app/date=2"]));
    assert_eq!(r, Some(strings(&["s3://bk/app/date=1", "s3://bk/app/date=2"])));
}

#[test]
fn delete_prefix_is_best_effort() {
    let r = tally_deletes(&vec![true, true, false, true, true]);
    assert_eq!(r.attempted, 5);
    assert_eq!(r.failed, 1);
}

#[test]
fn upload_size_selects_path() {
    assert!(should_multipart(150 * 1024 * 1024));
    assert!(!should_multipart(10 * 1024 * 1024));
    assert!(!should_multipart(100 * 1024 * 1024));
    assert!(should_multipart(100 * 1024 * 1024 + 1));
    assert_eq!(MULTIPART_CHUNK_SIZE, 50 * 1024 * 1024);
}

#[test]
fn multipart_write_failure_aborts() {
    let chunk = MULTIPART_CHUNK_SIZE;
    let mut s = UploadState::Reading;
    assert_eq!(upload_step(&mut s, UploadEvent::Read(chunk)), UploadAction::WriteChunk(chunk));
    assert_eq!(upload_step(&mut s, UploadEvent::Written), UploadAction::Flush);
    assert_eq!(upload_step(&mut s, UploadEvent::Flushed), UploadAction::ReadChunk);
    assert_eq!(upload_step(&mut s, UploadEvent::Read(chunk)), UploadAction::WriteChunk(chunk));
    assert_eq!(upload_step(&mut s, UploadEvent::WriteFailed), UploadAction::Abort);
    assert_eq!(s, UploadState::Aborting);
    assert_eq!(upload_step(&mut s, UploadEvent::AbortDone), UploadAction::ReportFailure);
    assert_eq!(s, UploadState::Failed);
    assert_eq!(upload_step(&mut s, UploadEvent::Read(0)), UploadAction::ReportFailure);
}

#[test]
fn multipart_completes_at_end_of_file() {
    let mut s = UploadState::Reading;
    assert_eq!(upload_step(&mut s, UploadEvent::Read(7)), UploadAction::WriteChunk(7));
    assert_eq!(upload_step(&mut s, UploadEvent::Written), UploadAction::Flush);
    assert_eq!(upload_step(&mut s, UploadEvent::Flushed), UploadAction::ReadChunk);
    assert_eq!(upload_step(&mut s, UploadEvent::Read(0)), UploadAction::Shutdown);
    assert_eq!(upload_step(&mut s, UploadEvent::Closed), UploadAction::ReportSuccess);
    assert_eq!(s, UploadState::Succeeded);
}

#[test]
fn multipart_read_and_flush_failures_abort() {
    let mut s = UploadState::Reading;
    assert_eq!(upload_step(&mut s, UploadEvent::ReadFailed), UploadAction::Abort);
    let mut s = UploadState::Flushing;
    assert_eq!(upload_step(&mut s, UploadEvent::FlushFailed), UploadAction::Abort);
}

#[test]
fn store_errors_are_classified() {
    assert_eq!(
        ObjectStorageError::from_failure(StoreFailure::NotFound("a/b".to_string())),
        ObjectStorageError::NoSuchKey("a/b".to_string())
    );
    assert_eq!(
        ObjectStorageError::from_failure(StoreFailure::Generic("x".to_string())),
        ObjectStorageError::UnhandledError("x".to_string())
    );
    let e = object_store::Error::NotFound {
        path: "logs/x".to_string(),
        source: Box::new(std::io::Error::new(std::io::ErrorKind::NotFound, "gone")),
    };
    assert_eq!(ObjectStorageError::from_store_error(&e), ObjectStorageError::NoSuchKey("logs/x".to_string()));
    let e = object_store::Error::NotImplemented;
    assert!(matches!(ObjectStorageError::from_store_error(&e), ObjectStorageError::UnhandledError(_)));
}

fn config() -> S3Config {
    S3Config {
        endpoint_url: "http://localhost:9000".to_string(),
        access_key_id: Some("key".to_string()),
        secret_key: None,
        profile_name: Some("dev".to_string()),
        region: "us-east-1".to_string(),
        bucket_name: "logs".to_string(),
        set_checksum: false,
        use_path_style: true,
        skip_tls: true,
        imdsv1_fallback: false,
        metadata_endpoint: None,
    }
}

#[test]
fn endpoint_joins_url_and_bucket() {
    assert_eq!(config().get_endpoint(), "http://localhost:9000/logs");
    assert_eq!(config().store_url(), "s3://logs");
}

#[test]
fn client_settings_follow_config() {
    let s = config().get_default_builder();
    assert_eq!(s.credentials, None);
    assert!(!s.virtual_hosted_style);
    assert!(s.allow_invalid_certificates);
    assert!(s.allow_http);
    assert_eq!(s.connect_timeout_secs, CONNECT_TIMEOUT_SECS);
    assert_eq!(s.profile, Some("dev".to_string()));
    let mut c = config();
    c.secret_key = Some("SECRET-REDACTED".to_string());
    let s = c.get_default_builder();
    assert_eq!(s.credentials, Some(("key".to_string(), "SECRET-REDACTED".to_string())));
}

#[test]
fn probe_outcomes_are_read() {
    assert_eq!(probe_of(Ok(())), Probe::Present);
    assert_eq!(probe_of(Err(ObjectStorageError::NoSuchKey("users/.stream.json".to_string()))), Probe::Absent);
    assert_eq!(
        probe_of(Err(ObjectStorageError::UnhandledError("timeout".to_string()))),
        Probe::Failed(ObjectStorageError::UnhandledError("timeout".to_string()))
    );
}

#[test]
fn table_options_are_flat_pruned_parquet() {
    assert_eq!(query_table_options("bk", &Vec::new()), None);
    let t = query_table_options("bk", &strings(&["app/date=1"])).unwrap();
    assert_eq!(t.paths, strings(&["s3://bk/app/date=1"]));
    assert_eq!(t.file_extension, ".parquet");
    assert!(t.enable_pruning);
    assert!(t.collect_stat);
    assert_eq!(t.target_partitions, 1);
    assert!(t.partition_cols.is_empty());
    assert!(!t.infinite_source);
}

#[test]
fn transfer_errors_are_classified() {
    assert_eq!(
        ObjectStorageError::from_transfer_failure(StoreFailure::Generic("reset".to_string())),
        ObjectStorageError::ConnectionError("reset".to_string())
    );
    assert_eq!(
        ObjectStorageError::from_transfer_failure(StoreFailure::NotFound("k".to_string())),
        ObjectStorageError::NoSuchKey("k".to_string())
    );
    assert_eq!(
        ObjectStorageError::from_transfer_failure(StoreFailure::Other("odd".to_string())),
        ObjectStorageError::UnhandledError("odd".to_string())
    );
    let e = object_store::Error::Generic {
        store: "S3",
        source: Box::new(std::io::Error::new(std::io::ErrorKind::Other, "connection reset")),
    };
    assert_eq!(
        ObjectStorageError::from_transfer_error(&e),
        ObjectStorageError::ConnectionError("connection reset".to_string())
    );
    let e = object_store::Error::NotFound {
        path: "logs/x".to_string(),
        source: Box::new(std::io::Error::new(std::io::ErrorKind::NotFound, "gone")),
    };
    assert_eq!(ObjectStorageError::from_transfer_error(&e), ObjectStorageError::NoSuchKey("logs/x".to_string()));
}
