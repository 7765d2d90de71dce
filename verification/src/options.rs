//! What a query is made of, and what can go wrong with it.
use vstd::prelude::*;

use crate::text::{decimal, push_decimal, push_str};

verus! {

/// The InfluxDB HTTP API that a query is sent to.
#[derive(Debug, Clone, Copy, PartialEq, Eq, Structural)]
pub enum ApiVersion {
    V1,
    V2,
}

/// How the rows of a response are printed.
#[derive(Debug, Clone, Copy, PartialEq, Eq, Structural)]
pub enum OutputFormat {
    Table,
    Json,
    Csv,
    Raw,
}

/// Everything a query needs: where it goes, what it asks, who asks, and how
/// its answer is printed.
#[derive(Debug, Clone, PartialEq, Eq)]
pub struct QueryOptions {
    pub api_version: ApiVersion,
    pub base_url: String,
    pub query: String,
    pub database: Option<String>,
    pub retention_policy: Option<String>,
    pub org: Option<String>,
    pub token: Option<String>,
    pub username: Option<String>,
    pub password: Option<String>,
    pub output: OutputFormat,
    pub debug: bool,
}

/// The step of reading or writing CSV at which the `csv` crate failed.
#[derive(Debug, Clone, Copy, PartialEq, Eq, Structural)]
pub enum CsvStage {
    ReadHeaders,
    ReadRecord,
    WriteHeader,
    WriteRow,
    Finish,
    Utf8,
}

/// Why a query could not be built, sent or printed.
#[derive(Debug, Clone, PartialEq, Eq)]
pub enum QueryError {
    /// `--api v1` without a database.
    MissingDatabase,
    /// `--api v2` without an organisation.
    MissingOrg,
    /// The server answered with a status outside 200..=299.
    Status { status: u16, body: String },
    /// A v1 answer that is not the JSON of a v1 response; the decoder's message.
    V1Json(String),
    /// The `csv` crate refused the data at the given step; its message.
    Csv(CsvStage, String),
    /// `serde_json` could not write the rows as JSON; its message.
    JsonEncode(String),
}

/// A v1 query names a database and a v2 query an organisation.
pub open spec fn target_error(
    api_version: ApiVersion,
    database: Option<String>,
    org: Option<String>,
) -> Option<QueryError> {
    match api_version {
        ApiVersion::V1 => if database is None {
            Some(QueryError::MissingDatabase)
        } else {
            None
        },
        ApiVersion::V2 => if org is None {
            Some(QueryError::MissingOrg)
        } else {
            None
        },
    }
}

/// Refuses options that lack the database (v1) or organisation (v2) that the
/// API needs.
pub fn check_target(api_version: ApiVersion, database: &Option<String>, org: &Option<String>) -> (r:
    Result<(), QueryError>)
    ensures
        r is Err <==> target_error(api_version, *database, *org) is Some,
        r matches Err(e) ==> target_error(api_version, *database, *org) == Some(e),
{
    match api_version {
        ApiVersion::V1 => if database.is_none() {
            Err(QueryError::MissingDatabase)
        } else {
            Ok(())
        },
        ApiVersion::V2 => if org.is_none() {
            Err(QueryError::MissingOrg)
        } else {
            Ok(())
        },
    }
}

/// A `QueryError` with its texts as characters.
pub enum QueryErrorModel {
    MissingDatabase,
    MissingOrg,
    Status { status: u16, body: Seq<char> },
    V1Json(Seq<char>),
    Csv(CsvStage, Seq<char>),
    JsonEncode(Seq<char>),
}

impl View for QueryError {
    type V = QueryErrorModel;

    open spec fn view(&self) -> QueryErrorModel {
        match self {
            QueryError::MissingDatabase => QueryErrorModel::MissingDatabase,
            QueryError::MissingOrg => QueryErrorModel::MissingOrg,
            QueryError::Status { status, body } => QueryErrorModel::Status {
                status: *status,
                body: body@,
            },
            QueryError::V1Json(m) => QueryErrorModel::V1Json(m@),
            QueryError::Csv(stage, m) => QueryErrorModel::Csv(*stage, m@),
            QueryError::JsonEncode(m) => QueryErrorModel::JsonEncode(m@),
        }
    }
}

/// A textual result with its texts as characters.
pub open spec fn text_result_view(r: Result<String, QueryError>) -> Result<
    Seq<char>,
    QueryErrorModel,
> {
    match r {
        Ok(s) => Ok(s@),
        Err(e) => Err(e@),
    }
}

/// What a CSV step that failed was doing.
pub open spec fn csv_stage_context(stage: CsvStage) -> Seq<char> {
    match stage {
        CsvStage::ReadHeaders => "failed to parse CSV headers"@,
        CsvStage::ReadRecord => "failed to parse CSV record"@,
        CsvStage::WriteHeader => "failed to write CSV header"@,
        CsvStage::WriteRow => "failed to write CSV row"@,
        CsvStage::Finish => "failed to finalize CSV writer"@,
        CsvStage::Utf8 => "failed to encode CSV as UTF-8"@,
    }
}

/// The text that reports an error: what failed, then the cause's own
/// message after `: ` where there is one; a status is given by its number.
pub open spec fn error_text(e: QueryErrorModel) -> Seq<char> {
    match e {
        QueryErrorModel::MissingDatabase => "--db is required for --api v1"@,
        QueryErrorModel::MissingOrg => "--org is required for --api v2"@,
        QueryErrorModel::Status { status, body } => "request failed with status "@ + decimal(
            status as nat,
        ) + ": "@ + body,
        QueryErrorModel::V1Json(m) => "failed to parse v1 JSON response: "@ + m,
        QueryErrorModel::Csv(stage, m) => csv_stage_context(stage) + ": "@ + m,
        QueryErrorModel::JsonEncode(m) => "failed to encode JSON output: "@ + m,
    }
}

fn stage_context(stage: CsvStage) -> (r: &'static str)
    ensures
        r@ == csv_stage_context(stage),
{
    match stage {
        CsvStage::ReadHeaders => "failed to parse CSV headers",
        CsvStage::ReadRecord => "failed to parse CSV record",
        CsvStage::WriteHeader => "failed to write CSV header",
        CsvStage::WriteRow => "failed to write CSV row",
        CsvStage::Finish => "failed to finalize CSV writer",
        CsvStage::Utf8 => "failed to encode CSV as UTF-8",
    }
}

impl QueryError {
    /// The text that reports this error.
    pub fn message(&self) -> (r: String)
        ensures
            r@ == error_text(self@),
    {
        let mut out = String::new();
        match self {
            QueryError::MissingDatabase => push_str(&mut out, "--db is required for --api v1"),
            QueryError::MissingOrg => push_str(&mut out, "--org is required for --api v2"),
            QueryError::Status { status, body } => {
                push_str(&mut out, "request failed with status ");
                push_decimal(&mut out, *status as u64);
                push_str(&mut out, ": ");
                push_str(&mut out, body.as_str());
            },
            QueryError::V1Json(m) => {
                push_str(&mut out, "failed to parse v1 JSON response: ");
                push_str(&mut out, m.as_str());
            },
            QueryError::Csv(stage, m) => {
                push_str(&mut out, stage_context(*stage));
                push_str(&mut out, ": ");
                push_str(&mut out, m.as_str());
            },
            QueryError::JsonEncode(m) => {
                push_str(&mut out, "failed to encode JSON output: ");
                push_str(&mut out, m.as_str());
            },
        }
        assert(out@ =~= error_text(self@));
        out
    }
}

} // verus!
