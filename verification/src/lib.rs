//! Verified core of a streaming S3 object writer: locating the object from
//! an `s3://` URI, cutting the written byte stream into multipart-upload parts,
//! and driving the background multipart upload.

pub mod laws;
pub mod upload;
pub mod uri;
pub mod writer;

pub use upload::{send_failure, MultipartTask, SendFailure, TaskAction, TaskEvent, UploadError, UploadMessage};
pub use uri::{parse_s3_uri, s3_location_from_url, ErrorKind, S3UriError, UrlParts};
pub use writer::{FinishPlan, FinishUpload, S3Writer, WriteAction, PARQUET_BUFFER_SIZE};
