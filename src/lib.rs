//! Client library core for an object-storage REST service: request
//! canonicalization and signing, request assembly, multipart-upload
//! bookkeeping, cursor pagination and chunked transfer accounting.

pub mod bucket;
pub mod canonical;
pub mod client;
pub mod common;
pub mod error;
pub mod multipart;
pub mod object;
pub mod paginate;
pub mod request;
pub mod signer;
pub mod text;
pub mod transfer;

pub use crate::bucket::OssBucket;
pub use crate::client::OssClient;
pub use crate::error::Error;
pub use crate::object::OssObject;
