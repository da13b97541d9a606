//! Verified core of an MCP gateway that forwards documents, URLs and files to
//! an AnythingLLM instance: configuration, request construction, input
//! decoding and the rendering of AnythingLLM's JSON replies.

pub mod text;
pub mod config;
pub mod data_url;
pub mod json;
pub mod responses;
pub mod api;

pub use config::{api_key_status, bind_address, default_http_port, parse_port, ServerConfig, TransportConfig};
pub use data_url::{hex_digit, hex_to_byte, parse_data_url, parse_file_input, percent_decode, InputError};
pub use api::{AnythingLlmServer, FileUpload, HttpStatus, JsonBody, JsonField, ToolFailure};
pub use responses::{
    format_create_workspace, format_list_workspaces, format_search_results,
    format_workspace_details, format_workspace_document_list,
};
