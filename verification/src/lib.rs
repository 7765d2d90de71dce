//! Querying InfluxDB v1 and v2: building the HTTP request for a query,
//! reporting it for debugging with credentials hidden, and printing the
//! answer's rows as a table, JSON or CSV.
pub mod debug;
pub mod encode;
pub mod options;
pub mod request;
pub mod response;
pub mod table;
pub mod text;

pub use debug::{format_debug_request, format_debug_response, redact_auth_header};
pub use encode::percent_encode;
pub use options::{check_target, ApiVersion, CsvStage, OutputFormat, QueryError, QueryOptions};
pub use request::{build_request, check_status, trim_base_url, BuiltRequest};
pub use response::{
    drop_comment_lines, format_records, format_response, format_v1_response, format_v2_response,
    json_value_to_string, no_rows_message, JsonCell, V1Response, V1Result, V1Series,
};
pub use table::render_table;
pub mod decode;
