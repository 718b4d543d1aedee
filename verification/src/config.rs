//! Server configuration and its validation rule.

use vstd::prelude::*;

verus! {

/// Where video objects are fetched from.
#[derive(Debug, Clone, Copy, PartialEq, Eq, Structural)]
pub enum StorageBackend {
    Local,
    S3,
}

/// Settings of one server process.
#[derive(Debug, Clone)]
pub struct Config {
    /// Address the listener binds to.
    pub listen_addr: String,
    /// Which object store holds the videos.
    pub storage_backend: StorageBackend,
    /// Root directory of the local store.
    pub local_path: String,
    /// Bucket of the S3 store; must not be empty when the backend is S3.
    pub s3_bucket: String,
    /// Region of the S3 store.
    pub s3_region: String,
    /// Endpoint override for S3-compatible services.
    pub s3_endpoint: Option<String>,
    /// Access key of the S3 store.
    pub s3_access_key: String,
    /// Secret key of the S3 store.
    pub s3_secret_key: String,
    /// JPEG quality, clamped into 1..=100 where it is used.
    pub jpeg_quality: u8,
    /// Log filter used when the environment sets none.
    pub log_level: String,
}

/// Why a configuration is refused.
#[derive(Debug, Clone, Copy, PartialEq, Eq, Structural)]
pub enum ConfigError {
    /// The S3 backend was selected without a bucket name.
    MissingS3Bucket,
}

impl ConfigError {
    /// Human-readable description of the error.
    pub fn message(&self) -> (text: String)
        ensures
            text@ == "S3 bucket name required when using s3 backend"@,
    {
        "S3 bucket name required when using s3 backend".to_string()
    }
}

impl Config {
    /// A configuration is valid unless it selects S3 and names no bucket.
    pub open spec fn is_valid(&self) -> bool {
        !(self.storage_backend == StorageBackend::S3 && self.s3_bucket@.len() == 0)
    }

    /// The out-of-the-box settings: local storage under `./data`, listening
    /// on port 3000 of every interface, JPEG quality 80.
    pub open spec fn is_default(&self) -> bool {
        &&& self.listen_addr@ == "0.0.0.0:3000"@
        &&& self.storage_backend == StorageBackend::Local
        &&& self.local_path@ == "./data"@
        &&& self.s3_bucket@ == Seq::<char>::empty()
        &&& self.s3_region@ == "us-east-1"@
        &&& self.s3_endpoint is None
        &&& self.s3_access_key@ == "minioadmin"@
        &&& self.s3_secret_key@ == "minioadmin"@
        &&& self.jpeg_quality == 80
        &&& self.log_level@ == "info"@
    }

    /// Checks the configuration before the server starts.
    pub fn validate(&self) -> (outcome: Result<(), ConfigError>)
        ensures
            outcome is Ok <==> self.is_valid(),
            outcome is Err ==> outcome == Err::<(), ConfigError>(ConfigError::MissingS3Bucket),
    {
        if self.storage_backend == StorageBackend::S3 && self.s3_bucket.as_str().is_empty() {
            return Err(ConfigError::MissingS3Bucket);
        }
        Ok(())
    }
}

/// The out-of-the-box settings are valid, and so is every configuration
/// that differs from them in anything but an S3 backend without a bucket.
pub proof fn lemma_defaults_validate(config: Config)
    ensures
        config.is_default() ==> config.is_valid(),
        !config.is_valid() <==> config.storage_backend == StorageBackend::S3
            && config.s3_bucket@.len() == 0,
{
}

impl Default for Config {
    fn default() -> (config: Self)
        ensures
            config.is_default(),
            config.is_valid(),
    {
        Config {
            listen_addr: "0.0.0.0:3000".to_string(),
            storage_backend: StorageBackend::Local,
            local_path: "./data".to_string(),
            s3_bucket: String::new(),
            s3_region: "us-east-1".to_string(),
            s3_endpoint: None,
            s3_access_key: "minioadmin".to_string(),
            s3_secret_key: "minioadmin".to_string(),
            jpeg_quality: 80,
            log_level: "info".to_string(),
        }
    }
}

} // verus!
