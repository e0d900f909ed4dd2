use crate::utils::text::{decimal_digits, decimal_text, text_concat};
use vstd::prelude::*;
use vstd::std_specs::convert::FromSpecImpl;
use vstd::string::StringExecFns;

verus! {

/// `std::io::Error`, carried through without looking inside.
#[verifier::external_type_specification]
#[verifier::external_body]
pub struct ExIoError(std::io::Error);

/// `csv::Error`, carried through without looking inside.
#[verifier::external_type_specification]
#[verifier::external_body]
pub struct ExCsvError(csv::Error);

/// `serde_json::Error`, carried through without looking inside.
#[verifier::external_type_specification]
#[verifier::external_body]
pub struct ExJsonError(serde_json::Error);

/// `zip::result::ZipError`, carried through without looking inside.
#[verifier::external_type_specification]
#[verifier::external_body]
pub struct ExZipError(zip::result::ZipError);

/// Every failure a pipeline stage can report.
#[derive(Debug)]
pub enum EtlError {
    ApiError(String),
    HttpError(u16, String),
    RequestError(String),
    ParseError(String),
    IoError(std::io::Error),
    CsvError(csv::Error),
    JsonError(serde_json::Error),
    ZipError(zip::result::ZipError),
    ConfigError(String),
    TransformError(String),
    DatabaseError(String),
    AuthError(String),
    ValidationError(String),
}

pub type Result<T> = std::result::Result<T, EtlError>;

/// The kind of a failure, without what it carries.
#[derive(Debug, Clone, Copy, PartialEq, Eq, Structural)]
pub enum ErrorKind {
    Api,
    Http,
    Request,
    Parse,
    Io,
    Csv,
    Json,
    Zip,
    Config,
    Transform,
    Database,
    Auth,
    Validation,
}

/// What stands before the detail when an error of a kind is written out.
pub open spec fn kind_prefix(kind: ErrorKind) -> Seq<char> {
    match kind {
        ErrorKind::Api => "API request failed: "@,
        ErrorKind::Http => "HTTP error "@,
        ErrorKind::Request => "Request error: "@,
        ErrorKind::Parse => "Data parsing error: "@,
        ErrorKind::Io => "File I/O error: "@,
        ErrorKind::Csv => "CSV processing error: "@,
        ErrorKind::Json => "JSON processing error: "@,
        ErrorKind::Zip => "Zip archive error: "@,
        ErrorKind::Config => "Configuration error: "@,
        ErrorKind::Transform => "Transformation error: "@,
        ErrorKind::Database => "Database error: "@,
        ErrorKind::Auth => "Authentication error: "@,
        ErrorKind::Validation => "Validation error: "@,
    }
}

/// The text that `std::io::Error` writes for itself.
#[verifier::external_body]
fn io_error_text(error: &std::io::Error) -> String {
    error.to_string()
}

/// The text that `csv::Error` writes for itself.
#[verifier::external_body]
fn csv_error_text(error: &csv::Error) -> String {
    error.to_string()
}

/// The text that `serde_json::Error` writes for itself.
#[verifier::external_body]
fn json_error_text(error: &serde_json::Error) -> String {
    error.to_string()
}

/// The text that `zip::result::ZipError` writes for itself.
#[verifier::external_body]
fn zip_error_text(error: &zip::result::ZipError) -> String {
    error.to_string()
}

impl EtlError {
    /// The kind of the failure.
    pub open spec fn spec_kind(&self) -> ErrorKind {
        match self {
            EtlError::ApiError(_) => ErrorKind::Api,
            EtlError::HttpError(_, _) => ErrorKind::Http,
            EtlError::RequestError(_) => ErrorKind::Request,
            EtlError::ParseError(_) => ErrorKind::Parse,
            EtlError::IoError(_) => ErrorKind::Io,
            EtlError::CsvError(_) => ErrorKind::Csv,
            EtlError::JsonError(_) => ErrorKind::Json,
            EtlError::ZipError(_) => ErrorKind::Zip,
            EtlError::ConfigError(_) => ErrorKind::Config,
            EtlError::TransformError(_) => ErrorKind::Transform,
            EtlError::DatabaseError(_) => ErrorKind::Database,
            EtlError::AuthError(_) => ErrorKind::Auth,
            EtlError::ValidationError(_) => ErrorKind::Validation,
        }
    }

    /// The kind of the failure.
    #[verifier::when_used_as_spec(spec_kind)]
    pub fn kind(&self) -> (k: ErrorKind)
        ensures
            k == self.spec_kind(),
    {
        match self {
            EtlError::ApiError(_) => ErrorKind::Api,
            EtlError::HttpError(_, _) => ErrorKind::Http,
            EtlError::RequestError(_) => ErrorKind::Request,
            EtlError::ParseError(_) => ErrorKind::Parse,
            EtlError::IoError(_) => ErrorKind::Io,
            EtlError::CsvError(_) => ErrorKind::Csv,
            EtlError::JsonError(_) => ErrorKind::Json,
            EtlError::ZipError(_) => ErrorKind::Zip,
            EtlError::ConfigError(_) => ErrorKind::Config,
            EtlError::TransformError(_) => ErrorKind::Transform,
            EtlError::DatabaseError(_) => ErrorKind::Database,
            EtlError::AuthError(_) => ErrorKind::Auth,
            EtlError::ValidationError(_) => ErrorKind::Validation,
        }
    }

    /// The detail that the failure carries as text: the message of a failure
    /// of the library's own, the status code and the message of an HTTP
    /// failure, and nothing for a failure that wraps an error of another
    /// library, which writes its own detail.
    pub open spec fn detail(&self) -> Option<Seq<char>> {
        match self {
            EtlError::ApiError(m) => Some(m@),
            EtlError::HttpError(code, m) => Some(decimal_digits(*code as nat) + ": "@ + m@),
            EtlError::RequestError(m) => Some(m@),
            EtlError::ParseError(m) => Some(m@),
            EtlError::IoError(_) => None,
            EtlError::CsvError(_) => None,
            EtlError::JsonError(_) => None,
            EtlError::ZipError(_) => None,
            EtlError::ConfigError(m) => Some(m@),
            EtlError::TransformError(m) => Some(m@),
            EtlError::DatabaseError(m) => Some(m@),
            EtlError::AuthError(m) => Some(m@),
            EtlError::ValidationError(m) => Some(m@),
        }
    }

    /// Writes the failure out: what its kind is called, then its detail.
    pub fn to_string(&self) -> (r: String)
        ensures
            kind_prefix(self.kind()).is_prefix_of(r@),
            self.detail() matches Some(detail) ==> r@ == kind_prefix(self.kind()) + detail,
    {
        match self {
            EtlError::ApiError(m) => text_concat("API request failed: ", m.as_str()),
            EtlError::HttpError(code, m) => {
                let mut r = text_concat("HTTP error ", decimal_text(*code as u64).as_str());
                r.append(": ");
                r.append(m.as_str());
                assert(r@ =~= kind_prefix(self.kind()) + self.detail()->0);
                r
            },
            EtlError::RequestError(m) => text_concat("Request error: ", m.as_str()),
            EtlError::ParseError(m) => text_concat("Data parsing error: ", m.as_str()),
            EtlError::IoError(e) => text_concat("File I/O error: ", io_error_text(e).as_str()),
            EtlError::CsvError(e) => text_concat(
                "CSV processing error: ",
                csv_error_text(e).as_str(),
            ),
            EtlError::JsonError(e) => text_concat(
                "JSON processing error: ",
                json_error_text(e).as_str(),
            ),
            EtlError::ZipError(e) => text_concat("Zip archive error: ", zip_error_text(e).as_str()),
            EtlError::ConfigError(m) => text_concat("Configuration error: ", m.as_str()),
            EtlError::TransformError(m) => text_concat("Transformation error: ", m.as_str()),
            EtlError::DatabaseError(m) => text_concat("Database error: ", m.as_str()),
            EtlError::AuthError(m) => text_concat("Authentication error: ", m.as_str()),
            EtlError::ValidationError(m) => text_concat("Validation error: ", m.as_str()),
        }
    }
}

impl From<std::io::Error> for EtlError {
    fn from(value: std::io::Error) -> (r: Self) {
        EtlError::IoError(value)
    }
}

impl FromSpecImpl<std::io::Error> for EtlError {
    open spec fn obeys_from_spec() -> bool {
        true
    }

    open spec fn from_spec(value: std::io::Error) -> Self {
        EtlError::IoError(value)
    }
}

impl From<csv::Error> for EtlError {
    fn from(value: csv::Error) -> (r: Self) {
        EtlError::CsvError(value)
    }
}

impl FromSpecImpl<csv::Error> for EtlError {
    open spec fn obeys_from_spec() -> bool {
        true
    }

    open spec fn from_spec(value: csv::Error) -> Self {
        EtlError::CsvError(value)
    }
}

impl From<serde_json::Error> for EtlError {
    fn from(value: serde_json::Error) -> (r: Self) {
        EtlError::JsonError(value)
    }
}

impl FromSpecImpl<serde_json::Error> for EtlError {
    open spec fn obeys_from_spec() -> bool {
        true
    }

    open spec fn from_spec(value: serde_json::Error) -> Self {
        EtlError::JsonError(value)
    }
}

impl From<zip::result::ZipError> for EtlError {
    fn from(value: zip::result::ZipError) -> (r: Self) {
        EtlError::ZipError(value)
    }
}

impl FromSpecImpl<zip::result::ZipError> for EtlError {
    open spec fn obeys_from_spec() -> bool {
        true
    }

    open spec fn from_spec(value: zip::result::ZipError) -> Self {
        EtlError::ZipError(value)
    }
}

/// Whether an error carries the given message of a transformation.
pub open spec fn is_transform_error(error: EtlError, message: Seq<char>) -> bool {
    error matches EtlError::TransformError(m) && m@ == message
}

} // verus!
