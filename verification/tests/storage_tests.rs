use bucket_streamer::config::{Config, StorageBackend};
use bucket_streamer::storage::{
    create_store, fetch_range, get_size, object_exists, ByteRange, HeadOutcome, StoreSettings,
};

#[test]
fn test_local_store_settings() {
    let config = Config::default();
    assert_eq!(create_store(&config), StoreSettings::Local { root: "./data".to_string() });
}

#[test]
fn test_s3_store_settings_without_endpoint() {
    let mut config = Config::default();
    config.storage_backend = StorageBackend::S3;
    config.s3_bucket = "videos".to_string();
    assert_eq!(
        create_store(&config),
        StoreSettings::S3 {
            bucket: "videos".to_string(),
            region: "us-east-1".to_string(),
            access_key: "minioadmin".to_string(),
            secret_key: "minioadmin".to_string(),
            endpoint: None,
            allow_http: false,
        }
    );
}

#[test]
fn test_s3_endpoint_override_allows_http() {
    let mut config = Config::default();
    config.storage_backend = StorageBackend::S3;
    config.s3_bucket = "videos".to_string();
    config.s3_endpoint = Some("http://localhost:9000".to_string());
    match create_store(&config) {
        StoreSettings::S3 { endpoint, allow_http, .. } => {
            assert_eq!(endpoint, Some("http://localhost:9000".to_string()));
            assert!(allow_http);
        }
        other => panic!("expected S3 settings, got {:?}", other),
    }
}

#[test]
fn test_byte_range() {
    assert_eq!(fetch_range(0, 4), Some(ByteRange { start: 0, end: 4 }));
    assert_eq!(fetch_range(10, 16), Some(ByteRange { start: 10, end: 16 }));
    assert_eq!(fetch_range(7, 7), Some(ByteRange { start: 7, end: 7 }));
}

#[test]
fn test_absent_is_not_unavailable() {
    assert_eq!(object_exists(&HeadOutcome::Found { size: 16 }), Ok(true));
    assert_eq!(object_exists(&HeadOutcome::NotFound), Ok(false));
    assert_eq!(
        object_exists(&HeadOutcome::Failed("connection refused".to_string())),
        Err("Failed to check object existence: connection refused".to_string())
    );
}

#[test]
fn test_object_size() {
    assert_eq!(get_size(&HeadOutcome::Found { size: 16 }), Ok(16));
    assert_eq!(
        get_size(&HeadOutcome::NotFound),
        Err("Failed to get object metadata: object not found".to_string())
    );
    assert_eq!(
        get_size(&HeadOutcome::Failed("timeout".to_string())),
        Err("Failed to get object metadata: timeout".to_string())
    );
}
