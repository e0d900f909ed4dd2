use crate::models::json::JsonValue;
use crate::utils::error::EtlError;
use crate::utils::text::text_concat;
use vstd::prelude::*;
use vstd::string::StringExecFns;

verus! {

/// A whole pipeline definition: where the records come from, what is done to
/// them and where they go.
#[derive(Debug, Clone)]
pub struct EtlConfig {
    pub name: String,
    pub description: Option<String>,
    pub data_source: DataSourceConfig,
    pub transformations: Vec<TransformationConfig>,
    pub output: OutputConfig,
    pub settings: Option<GlobalSettings>,
}

/// Where the records come from.
#[derive(Debug, Clone)]
pub enum DataSourceConfig {
    Api {
        url: String,
        method: Option<String>,
        headers: Option<Vec<(String, String)>>,
        auth: Option<AuthConfig>,
        retry: Option<RetryConfig>,
    },
    LocalFile { path: String, format: FileFormat, encoding: Option<String> },
    Database { connection_string: String, query: String, driver: DatabaseDriver },
    S3 { bucket: String, key: String, region: String, credentials: Option<AwsCredentials> },
}

/// How the bytes of a file are decoded into records.
#[derive(Debug, Clone)]
pub enum FileFormat {
    Json,
    Csv { delimiter: Option<char>, has_headers: Option<bool> },
    Tsv,
    Excel,
    Parquet,
    Zip { extract_path: Option<String>, target_files: Vec<String> },
}

#[derive(Debug, Clone, Copy, PartialEq, Eq, Structural)]
pub enum DatabaseDriver {
    Postgres,
    Mysql,
    Sqlite,
    Surreal,
}

#[derive(Debug, Clone)]
pub struct AuthConfig {
    pub auth_type: AuthType,
    pub credentials: AuthCredentials,
}

#[derive(Debug, Clone, Copy, PartialEq, Eq, Structural)]
pub enum AuthType {
    BasicAuth,
    BearerToken,
    ApiKey,
    OAuth2,
}

#[derive(Debug, Clone)]
pub struct AuthCredentials {
    pub username: Option<String>,
    pub password: Option<String>,
    pub token: Option<String>,
    pub api_key: Option<String>,
    pub header_name: Option<String>,
}

#[derive(Debug, Clone)]
pub struct AwsCredentials {
    pub access_key_id: String,
    pub secret_access_key: String,
    pub session_token: Option<String>,
}

/// The retry policy of network calls. Delays are in milliseconds; the
/// multiplier is in thousandths, so 1500 multiplies a delay by one and a half.
/// A configuration gives it under `backoff_multiplier` as a number with a
/// fraction of one to three digits, so 1500 is written `1.5`.
#[derive(Debug, Clone, Copy, PartialEq, Eq, Structural)]
pub struct RetryConfig {
    pub max_attempts: u32,
    pub initial_delay_ms: u64,
    pub max_delay_ms: u64,
    pub backoff_multiplier_permille: u64,
}

/// One transformation rule.
#[derive(Debug, Clone)]
pub struct TransformationConfig {
    pub name: String,
    pub source_field: String,
    pub target_field: Option<String>,
    pub transformation: TransformationType,
    pub condition: Option<ConditionConfig>,
}

/// What a rule does to the value it reads.
#[derive(Debug, Clone)]
pub enum TransformationType {
    Mapping { mapping: Vec<(String, String)> },
    Calculate { expression: String },
    Format { template: String },
    Convert { to_type: DataType },
    Filter { condition: String },
    Aggregate { operation: AggregateOperation, group_by: Option<Vec<String>> },
    Join { join_source: String, join_key: String, join_type: JoinType },
    Custom { function: String, parameters: Vec<(String, JsonValue)> },
}

#[derive(Debug, Clone, Copy, PartialEq, Eq, Structural)]
pub enum DataType {
    String,
    Integer,
    Float,
    Boolean,
    Date,
    DateTime,
    Json,
}

#[derive(Debug, Clone, Copy, PartialEq, Eq, Structural)]
pub enum AggregateOperation {
    Count,
    Sum,
    Average,
    Min,
    Max,
    GroupConcat,
}

#[derive(Debug, Clone, Copy, PartialEq, Eq, Structural)]
pub enum JoinType {
    Inner,
    Left,
    Right,
    Full,
}

/// A test of one field against a literal.
#[derive(Debug, Clone)]
pub struct ConditionConfig {
    pub field: String,
    pub operator: ComparisonOperator,
    pub value: JsonValue,
}

#[derive(Debug, Clone, Copy, PartialEq, Eq, Structural)]
pub enum ComparisonOperator {
    Equal,
    NotEqual,
    GreaterThan,
    LessThan,
    GreaterEqual,
    LessEqual,
    Contains,
    StartsWith,
    EndsWith,
    Regex,
    In,
    NotIn,
}

#[derive(Debug, Clone)]
pub struct OutputConfig {
    pub format: OutputFormat,
    pub destination: OutputDestination,
    pub options: Option<OutputOptions>,
}

#[derive(Debug, Clone)]
pub enum OutputFormat {
    Csv { delimiter: Option<char>, quote_char: Option<char>, headers: Option<bool> },
    Json { pretty_print: Option<bool> },
    Excel { sheet_name: Option<String> },
    Parquet,
    Database { table_name: String, mode: WriteMode },
}

#[derive(Debug, Clone)]
pub enum OutputDestination {
    LocalFile { path: String, compress: Option<CompressionType> },
    S3 { bucket: String, key: String, region: String, credentials: Option<AwsCredentials> },
    Database { connection_string: String, driver: DatabaseDriver },
    Api {
        url: String,
        method: Option<String>,
        headers: Option<Vec<(String, String)>>,
        auth: Option<AuthConfig>,
    },
}

#[derive(Debug, Clone, Copy, PartialEq, Eq, Structural)]
pub enum CompressionType {
    Gzip,
    Zip,
    Bzip2,
    Zstd,
}

#[derive(Debug, Clone, Copy, PartialEq, Eq, Structural)]
pub enum WriteMode {
    Overwrite,
    Append,
    Upsert,
}

#[derive(Debug, Clone)]
pub struct OutputOptions {
    pub batch_size: Option<usize>,
    pub max_file_size: Option<u64>,
    pub split_by_field: Option<String>,
    pub filename_template: Option<String>,
}

#[derive(Debug, Clone)]
pub struct GlobalSettings {
    pub parallel_workers: Option<usize>,
    pub memory_limit_mb: Option<u64>,
    pub temp_directory: Option<String>,
    pub log_level: Option<String>,
    pub timeout_seconds: Option<u64>,
    pub variables: Option<Vec<(String, String)>>,
}

/// A rule of validation that a configuration breaks.
pub enum ConfigIssue {
    EmptyName,
    NoTransformations,
    EmptyUrl,
    EmptyConnectionString,
    EmptyQuery,
    EmptyBucket,
    EmptyKey,
    EmptyRegion,
}

/// The path of the field that an issue is about.
pub open spec fn issue_path(issue: ConfigIssue) -> Seq<char> {
    match issue {
        ConfigIssue::EmptyName => "name"@,
        ConfigIssue::NoTransformations => "transformations"@,
        ConfigIssue::EmptyUrl => "data_source.url"@,
        ConfigIssue::EmptyConnectionString => "data_source.connection_string"@,
        ConfigIssue::EmptyQuery => "data_source.query"@,
        ConfigIssue::EmptyBucket => "data_source.bucket"@,
        ConfigIssue::EmptyKey => "data_source.key"@,
        ConfigIssue::EmptyRegion => "data_source.region"@,
    }
}

/// What is wrong with the field that an issue is about.
pub open spec fn issue_reason(issue: ConfigIssue) -> Seq<char> {
    match issue {
        ConfigIssue::NoTransformations => ": at least one transformation must be specified"@,
        _ => ": cannot be empty"@,
    }
}

/// The first required field of a data source that is empty, if there is one.
pub open spec fn source_issue(source: DataSourceConfig) -> Option<ConfigIssue> {
    match source {
        DataSourceConfig::Api { url, .. } => if url@.len() == 0 {
            Some(ConfigIssue::EmptyUrl)
        } else {
            None
        },
        DataSourceConfig::LocalFile { .. } => None,
        DataSourceConfig::Database { connection_string, query, .. } => if connection_string@.len()
            == 0 {
            Some(ConfigIssue::EmptyConnectionString)
        } else if query@.len() == 0 {
            Some(ConfigIssue::EmptyQuery)
        } else {
            None
        },
        DataSourceConfig::S3 { bucket, key, region, .. } => if bucket@.len() == 0 {
            Some(ConfigIssue::EmptyBucket)
        } else if key@.len() == 0 {
            Some(ConfigIssue::EmptyKey)
        } else if region@.len() == 0 {
            Some(ConfigIssue::EmptyRegion)
        } else {
            None
        },
    }
}

/// The first rule of validation that a configuration breaks, if it breaks one:
/// the name, then the list of transformations, then the fields of the source.
pub open spec fn config_issue(config: EtlConfig) -> Option<ConfigIssue> {
    if config.name@.len() == 0 {
        Some(ConfigIssue::EmptyName)
    } else if config.transformations@.len() == 0 {
        Some(ConfigIssue::NoTransformations)
    } else {
        source_issue(config.data_source)
    }
}

fn issue_error(path: &str, reason: &str) -> (e: EtlError)
    ensures
        e matches EtlError::ValidationError(m) && m@ == path@ + reason@,
{
    EtlError::ValidationError(text_concat(path, reason))
}

impl EtlConfig {
    /// Checks the configuration against the rules of validation and reports
    /// the first that it breaks, with the path of the field.
    pub fn validate(&self) -> (r: Result<(), EtlError>)
        ensures
            match config_issue(*self) {
                None => r is Ok,
                Some(issue) => r matches Err(EtlError::ValidationError(m)) && m@ == issue_path(
                    issue,
                ) + issue_reason(issue),
            },
    {
        let empty = ": cannot be empty";
        if self.name.as_str().is_empty() {
            return Err(issue_error("name", empty));
        }
        if self.transformations.len() == 0 {
            return Err(
                issue_error("transformations", ": at least one transformation must be specified"),
            );
        }
        match &self.data_source {
            DataSourceConfig::Api { url, .. } => {
                if url.as_str().is_empty() {
                    return Err(issue_error("data_source.url", empty));
                }
            },
            DataSourceConfig::LocalFile { .. } => {},
            DataSourceConfig::Database { connection_string, query, .. } => {
                if connection_string.as_str().is_empty() {
                    return Err(issue_error("data_source.connection_string", empty));
                }
                if query.as_str().is_empty() {
                    return Err(issue_error("data_source.query", empty));
                }
            },
            DataSourceConfig::S3 { bucket, key, region, .. } => {
                if bucket.as_str().is_empty() {
                    return Err(issue_error("data_source.bucket", empty));
                }
                if key.as_str().is_empty() {
                    return Err(issue_error("data_source.key", empty));
                }
                if region.as_str().is_empty() {
                    return Err(issue_error("data_source.region", empty));
                }
            },
        }
        Ok(())
    }
}

} // verus!
