//! Errors: local validation failures, and what the service answered when it
//! did not succeed.
use vstd::prelude::*;
use base64::Engine;

verus! {

/// The structured error record the service returns.
#[derive(Debug, Clone, PartialEq, Eq)]
pub struct OssError {
    pub code: String,
    pub message: String,
    pub request_id: String,
    pub ec: String,
}

#[derive(Debug, Clone, PartialEq, Eq)]
pub enum Error {
    /// A destination path that names a network location.
    PathNotSupported,
    /// Content too large for a single upload.
    FileTooBig,
    /// A part size outside the allowed range.
    InvalidFileSize,
    /// A character that the service does not accept.
    InvalidCharacter,
    /// Two extension headers share a name once lower-cased.
    DuplicateHeader,
    /// Two sub-resource query parameters share a name.
    DuplicateQuery,
    /// A secret or a text to sign too large for the keyed hash.
    InputTooLong,
    /// An access key secret that is empty.
    EmptySecret,
    /// A part number outside 1..=10000.
    InvalidPartNumber(u32),
    /// A part number given twice in one manifest.
    DuplicatePart(u32),
    /// A manifest with no parts.
    NoParts,
    /// A multipart upload that was already completed or aborted.
    UploadClosed,
    /// A successful status whose body did not have the expected shape; the raw
    /// body when it could be read.
    OssInvalidResponse(Option<Vec<u8>>),
    /// A non-success status with a structured error record.
    OssError(u16, OssError),
    /// A non-success status whose body is not an error record; the raw body.
    OssInvalidError(u16, Vec<u8>),
}

/// Any 2xx status is a success.
pub open spec fn is_success_status(status: u16) -> bool {
    200 <= status && status < 300
}

pub fn is_success(status: u16) -> (r: bool)
    ensures
        r == is_success_status(status),
{
    200 <= status && status < 300
}

/// The error for a non-success response, given its status, its raw body and
/// the error record read from that body, if one could be read.
pub fn normal_error(status: u16, body: Vec<u8>, record: Option<OssError>) -> (r: Error)
    ensures
        record matches Some(e) ==> r == Error::OssError(status, e),
        record is None ==> r == Error::OssInvalidError(status, body),
{
    match record {
        Some(e) => Error::OssError(status, e),
        None => Error::OssInvalidError(status, body),
    }
}

/// The bytes of a base64 text, when it is well-formed.
pub uninterp spec fn base64_decoded(text: Seq<u8>) -> Option<Seq<u8>>;

pub open spec fn opt_bytes(o: Option<Vec<u8>>) -> Option<Seq<u8>> {
    match o {
        Some(v) => Some(v@),
        None => None,
    }
}

/// Relies on base64's STANDARD engine `decode`: the bytes depend on the text
/// alone; a malformed text gives an error, here `None`.
#[verifier::external_body]
fn base64_decode(text: &[u8]) -> (r: Option<Vec<u8>>)
    ensures
        opt_bytes(r) == base64_decoded(text@),
{
    base64::engine::general_purpose::STANDARD.decode(text).ok()
}

/// The error record a body-less answer carries in its `x-oss-err` header:
/// the header's base64 decoding, when the header is present.
pub fn error_header_bytes(header: Option<&[u8]>) -> (r: Option<Vec<u8>>)
    ensures
        header is None ==> r is None,
        header matches Some(h) ==> opt_bytes(r) == base64_decoded(h@),
{
    match header {
        Some(h) => base64_decode(h),
        None => None,
    }
}

/// The error for a non-success answer without a body, given the decoded
/// `x-oss-err` header (if present and well-formed) and the error record read
/// from it (if it is one). Without the header the raw part is empty.
pub fn header_error(status: u16, decoded: Option<Vec<u8>>, record: Option<OssError>) -> (r: Error)
    ensures
        decoded is None ==> (r matches Error::OssInvalidError(s, b) && s == status && b@.len()
            == 0),
        decoded matches Some(b) ==> (record matches Some(e) ==> r == Error::OssError(status, e)),
        decoded matches Some(b) ==> (record is None ==> r == Error::OssInvalidError(status, b)),
{
    match decoded {
        None => Error::OssInvalidError(status, Vec::new()),
        Some(b) => normal_error(status, b, record),
    }
}

} // verus!
