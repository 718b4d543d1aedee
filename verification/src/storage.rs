//! The object-store adapter's decisions: which store a configuration asks
//! for, which byte range a request names, and what the store's answer to a
//! metadata request means.
//!
//! Talking to the store waits on the file system or the network and is done
//! outside this library.

use crate::config::{Config, StorageBackend};
use vstd::prelude::*;

verus! {

/// How the store of a configuration is to be created.
#[derive(Debug, Clone, PartialEq, Eq)]
pub enum StoreSettings {
    /// The local file system below `root`.
    Local { root: String },
    /// An S3-compatible bucket. With an endpoint override, plain HTTP is
    /// allowed.
    S3 {
        bucket: String,
        region: String,
        access_key: String,
        secret_key: String,
        endpoint: Option<String>,
        allow_http: bool,
    },
}

/// The mathematical value of [`StoreSettings`].
pub enum StoreSettingsView {
    Local { root: Seq<char> },
    S3 {
        bucket: Seq<char>,
        region: Seq<char>,
        access_key: Seq<char>,
        secret_key: Seq<char>,
        endpoint: Option<Seq<char>>,
        allow_http: bool,
    },
}

impl View for StoreSettings {
    type V = StoreSettingsView;

    open spec fn view(&self) -> StoreSettingsView {
        match self {
            StoreSettings::Local { root } => StoreSettingsView::Local { root: root@ },
            StoreSettings::S3 { bucket, region, access_key, secret_key, endpoint, allow_http } => {
                StoreSettingsView::S3 {
                    bucket: bucket@,
                    region: region@,
                    access_key: access_key@,
                    secret_key: secret_key@,
                    endpoint: match endpoint {
                        Some(url) => Some(url@),
                        None => None,
                    },
                    allow_http: *allow_http,
                }
            },
        }
    }
}

/// The store that a configuration asks for. Plain HTTP is allowed exactly
/// when the configuration overrides the endpoint.
pub open spec fn settings_of(config: &Config) -> StoreSettingsView {
    match config.storage_backend {
        StorageBackend::Local => StoreSettingsView::Local { root: config.local_path@ },
        StorageBackend::S3 => StoreSettingsView::S3 {
            bucket: config.s3_bucket@,
            region: config.s3_region@,
            access_key: config.s3_access_key@,
            secret_key: config.s3_secret_key@,
            endpoint: match config.s3_endpoint {
                Some(url) => Some(url@),
                None => None,
            },
            allow_http: config.s3_endpoint is Some,
        },
    }
}

/// Decides how the store of a configuration is to be created.
pub fn create_store(config: &Config) -> (settings: StoreSettings)
    ensures
        settings@ == settings_of(config),
{
    match config.storage_backend {
        StorageBackend::Local => StoreSettings::Local { root: config.local_path.clone() },
        StorageBackend::S3 => {
            let endpoint: Option<String> = match &config.s3_endpoint {
                Some(url) => Some(url.clone()),
                None => None,
            };
            let allow_http = endpoint.is_some();
            StoreSettings::S3 {
                bucket: config.s3_bucket.clone(),
                region: config.s3_region.clone(),
                access_key: config.s3_access_key.clone(),
                secret_key: config.s3_secret_key.clone(),
                endpoint,
                allow_http,
            }
        },
    }
}

/// A range of bytes of an object, from `start` up to but not including `end`.
#[derive(Debug, Clone, Copy, PartialEq, Eq, Structural)]
pub struct ByteRange {
    pub start: usize,
    pub end: usize,
}

/// The range `start..end` in the machine's addresses. There is none exactly
/// when an offset does not fit the machine's address size.
pub fn fetch_range(start: u64, end: u64) -> (range: Option<ByteRange>)
    ensures
        match range {
            Some(found) => found.start == start && found.end == end,
            None => start > usize::MAX || end > usize::MAX,
        },
{
    if start > usize::MAX as u64 || end > usize::MAX as u64 {
        None
    } else {
        Some(ByteRange { start: start as usize, end: end as usize })
    }
}

/// What the store answered to a request for an object's metadata.
#[derive(Debug, Clone, PartialEq, Eq)]
pub enum HeadOutcome {
    /// The object is there and has this many bytes.
    Found { size: u64 },
    /// The store says that there is no such object.
    NotFound,
    /// The store could not answer; holds its message.
    Failed(String),
}

/// The mathematical value of a [`HeadOutcome`].
pub enum HeadOutcomeView {
    Found { size: u64 },
    NotFound,
    Failed(Seq<char>),
}

impl View for HeadOutcome {
    type V = HeadOutcomeView;

    open spec fn view(&self) -> HeadOutcomeView {
        match self {
            HeadOutcome::Found { size } => HeadOutcomeView::Found { size: *size },
            HeadOutcome::NotFound => HeadOutcomeView::NotFound,
            HeadOutcome::Failed(text) => HeadOutcomeView::Failed(text@),
        }
    }
}

/// Whether the object exists: an absent object is no error, a store that
/// cannot answer is one.
pub open spec fn exists_of(outcome: HeadOutcomeView) -> Result<bool, Seq<char>> {
    match outcome {
        HeadOutcomeView::Found { .. } => Ok(true),
        HeadOutcomeView::NotFound => Ok(false),
        HeadOutcomeView::Failed(text) => Err("Failed to check object existence: "@ + text),
    }
}

/// The size of the object; here an absent object is an error too.
pub open spec fn object_size(outcome: HeadOutcomeView) -> Result<u64, Seq<char>> {
    match outcome {
        HeadOutcomeView::Found { size } => Ok(size),
        HeadOutcomeView::NotFound => Err("Failed to get object metadata: object not found"@),
        HeadOutcomeView::Failed(text) => Err("Failed to get object metadata: "@ + text),
    }
}

/// Whether the object exists.
pub fn object_exists(outcome: &HeadOutcome) -> (found: Result<bool, String>)
    ensures
        match found {
            Ok(there) => exists_of(outcome@) == Ok::<bool, Seq<char>>(there),
            Err(text) => exists_of(outcome@) == Err::<bool, Seq<char>>(text@),
        },
{
    match outcome {
        HeadOutcome::Found { .. } => Ok(true),
        HeadOutcome::NotFound => Ok(false),
        HeadOutcome::Failed(text) => {
            let mut message = "Failed to check object existence: ".to_string();
            message.append(text.as_str());
            Err(message)
        },
    }
}

/// The size of the object in bytes.
pub fn get_size(outcome: &HeadOutcome) -> (size: Result<u64, String>)
    ensures
        match size {
            Ok(bytes) => object_size(outcome@) == Ok::<u64, Seq<char>>(bytes),
            Err(text) => object_size(outcome@) == Err::<u64, Seq<char>>(text@),
        },
{
    match outcome {
        HeadOutcome::Found { size } => Ok(*size),
        HeadOutcome::NotFound => Err("Failed to get object metadata: object not found".to_string()),
        HeadOutcome::Failed(text) => {
            let mut message = "Failed to get object metadata: ".to_string();
            message.append(text.as_str());
            Err(message)
        },
    }
}

} // verus!
