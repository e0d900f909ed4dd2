use crate::config::settings::{AwsCredentials, DataSourceConfig, DatabaseDriver, FileFormat};
use crate::extractors::api_client::{
    error_is, option_text, plan_failure, plan_is, ApiClient, RequestPlan,
};
use crate::extractors::file_reader::{
    file_records, read_gives, zip_records, FileReader, ReadFailure, ReadOutcome,
};
use crate::models::data_types::DataRecord;
use crate::utils::error::{EtlError, Result};
use crate::utils::text::{text_concat, text_ends_with};
use vstd::prelude::*;
use vstd::string::StringExecFns;

verus! {

/// What has to be fetched before a source can be decoded.
#[derive(Debug)]
pub enum Acquisition {
    /// Send this request and take the body of the response.
    Http(RequestPlan),
    /// Read the file at this path.
    ReadFile { path: String },
    /// Ask the database adapter for the records of this query.
    Query { connection_string: String, query: String, driver: DatabaseDriver },
    /// Ask the object store for this object.
    GetObject { bucket: String, key: String, region: String, credentials: Option<AwsCredentials> },
}

/// The records of the bytes of an object of a store, decoded by the end of
/// its key: JSON, delimited text with a comma or with a tab, or an archive
/// of which every entry is decoded. Any other key is not supported.
pub open spec fn object_records(key: Seq<char>, bytes: Seq<u8>) -> ReadOutcome {
    if ".json"@.is_suffix_of(key) {
        file_records(key, bytes, FileFormat::Json)
    } else if ".csv"@.is_suffix_of(key) {
        file_records(key, bytes, FileFormat::Csv { delimiter: None, has_headers: None })
    } else if ".tsv"@.is_suffix_of(key) {
        file_records(key, bytes, FileFormat::Tsv)
    } else if ".zip"@.is_suffix_of(key) {
        zip_records(bytes, Seq::empty())
    } else {
        Err(ReadFailure::Unsupported("Unsupported object format: "@ + key))
    }
}

/// The records of the bytes that were fetched for a source: the body of a
/// response is a JSON document, a local file is decoded in its declared
/// format, an object of a store by the end of its key. The records of a
/// database do not come as bytes.
pub open spec fn source_records(source: DataSourceConfig, bytes: Seq<u8>) -> ReadOutcome {
    match source {
        DataSourceConfig::Api { url, .. } => file_records(url@, bytes, FileFormat::Json),
        DataSourceConfig::LocalFile { path, format, .. } => file_records(path@, bytes, format),
        DataSourceConfig::Database { .. } => Err(
            ReadFailure::Unsupported("Records of a database come from its adapter"@),
        ),
        DataSourceConfig::S3 { key, .. } => object_records(key@, bytes),
    }
}

/// Decides what has to be fetched for a source. The request of an API
/// source is checked as every request is; nothing else can fail.
pub fn plan_extraction(source: DataSourceConfig, client: &ApiClient) -> (r: Result<Acquisition>)
    ensures
        match source {
            DataSourceConfig::Api { url, method, headers, auth, retry } => match plan_failure(
                option_text(method),
                headers,
                auth,
            ) {
                Some(failure) => r matches Err(e) && error_is(e, failure),
                None => r matches Ok(Acquisition::Http(plan)) && plan_is(
                    plan,
                    url@,
                    option_text(method),
                    headers,
                    auth,
                    retry,
                    client.timeout(),
                ),
            },
            DataSourceConfig::LocalFile { path, .. } => r matches Ok(
                Acquisition::ReadFile { path: p },
            ) && p == path,
            DataSourceConfig::Database { connection_string, query, driver } => r matches Ok(
                Acquisition::Query { connection_string: c, query: q, driver: d },
            ) && c == connection_string && q == query && d == driver,
            DataSourceConfig::S3 { bucket, key, region, credentials } => r matches Ok(
                Acquisition::GetObject { bucket: b, key: k, region: g, credentials: c },
            ) && b == bucket && k == key && g == region && c == credentials,
        },
{
    match source {
        DataSourceConfig::Api { url, method, headers, auth, retry } => {
            match client.prepare_request(url.as_str(), method, headers, auth, retry) {
                Ok(plan) => Ok(Acquisition::Http(plan)),
                Err(e) => Err(e),
            }
        },
        DataSourceConfig::LocalFile { path, .. } => Ok(Acquisition::ReadFile { path }),
        DataSourceConfig::Database { connection_string, query, driver } => Ok(
            Acquisition::Query { connection_string, query, driver },
        ),
        DataSourceConfig::S3 { bucket, key, region, credentials } => Ok(
            Acquisition::GetObject { bucket, key, region, credentials },
        ),
    }
}

/// Decodes the bytes that were fetched for a source into records.
pub fn decode_extraction(source: DataSourceConfig, bytes: Vec<u8>) -> (r: Result<Vec<DataRecord>>)
    ensures
        read_gives(r, source_records(source, bytes@)),
{
    match source {
        DataSourceConfig::Api { url, .. } => FileReader::new().read_file(
            url.as_str(),
            bytes,
            FileFormat::Json,
        ),
        DataSourceConfig::LocalFile { path, format, encoding } => {
            let reader = match encoding {
                Some(name) => FileReader::with_encoding(name),
                None => FileReader::new(),
            };
            reader.read_file(path.as_str(), bytes, format)
        },
        DataSourceConfig::Database { .. } => Err(
            EtlError::ConfigError(String::from_str("Records of a database come from its adapter")),
        ),
        DataSourceConfig::S3 { key, .. } => {
            let name = key.as_str();
            let format = if text_ends_with(name, ".json") {
                FileFormat::Json
            } else if text_ends_with(name, ".csv") {
                FileFormat::Csv { delimiter: None, has_headers: None }
            } else if text_ends_with(name, ".tsv") {
                FileFormat::Tsv
            } else if text_ends_with(name, ".zip") {
                let every: Vec<String> = Vec::new();
                assert(crate::utils::text::texts_of(every@) =~= Seq::<Seq<char>>::empty());
                FileFormat::Zip { extract_path: None, target_files: every }
            } else {
                return Err(
                    EtlError::ConfigError(text_concat("Unsupported object format: ", name)),
                );
            };
            FileReader::new().read_file(name, bytes, format)
        },
    }
}

} // verus!
