use liberado_anythingllm_mcp::{
    format_search_results, format_workspace_details, format_workspace_document_list,
    hex_digit, hex_to_byte, parse_data_url, parse_file_input, percent_decode,
    AnythingLlmServer, HttpStatus, ServerConfig, TransportConfig,
};

// api_url

#[test]
fn test_api_url_constructs_correctly() {
    let config = ServerConfig {
        anythingllm_base_url: "http://anythingllm:3001".to_string(),
        anythingllm_api_key: "key".to_string(),
        transport: TransportConfig::Stdio,
    };
    let server = AnythingLlmServer::new(config);
    assert_eq!(
        server.api_url("/v1/document/raw-text"),
        "http://anythingllm:3001/api/v1/document/raw-text"
    );
    assert_eq!(
        server.api_url("/v1/workspace/my-space/update-embeddings"),
        "http://anythingllm:3001/api/v1/workspace/my-space/update-embeddings"
    );
}

#[test]
fn test_api_url_workspace_paths() {
    let config = ServerConfig {
        anythingllm_base_url: "http://anythingllm:3001".to_string(),
        anythingllm_api_key: "key".to_string(),
        transport: TransportConfig::Stdio,
    };
    let server = AnythingLlmServer::new(config);
    assert_eq!(
        server.api_url("/v1/workspace/my-slug"),
        "http://anythingllm:3001/api/v1/workspace/my-slug"
    );
    assert_eq!(
        server.api_url("/v1/workspace/my-slug/update-embeddings"),
        "http://anythingllm:3001/api/v1/workspace/my-slug/update-embeddings"
    );
}

#[test]
fn test_api_url_custom_base() {
    let config = ServerConfig {
        anythingllm_base_url: "http://myhost:4071".to_string(),
        anythingllm_api_key: "key".to_string(),
        transport: TransportConfig::Stdio,
    };
    let server = AnythingLlmServer::new(config);
    assert_eq!(
        server.api_url("/v1/document/upload"),
        "http://myhost:4071/api/v1/document/upload"
    );
}

// auth_header

#[test]
fn test_auth_header_format() {
    let config = ServerConfig {
        anythingllm_base_url: "http://anythingllm:3001".to_string(),
        anythingllm_api_key: "sk-test-token".to_string(),
        transport: TransportConfig::Stdio,
    };
    let server = AnythingLlmServer::new(config);
    assert_eq!(server.auth_header(), "Bearer sk-test-token");
}

#[test]
fn test_auth_header_empty_key() {
    let config = ServerConfig {
        anythingllm_base_url: "http://anythingllm:3001".to_string(),
        anythingllm_api_key: String::new(),
        transport: TransportConfig::Stdio,
    };
    let server = AnythingLlmServer::new(config);
    assert_eq!(server.auth_header(), "Bearer ");
}

// check_api_response

#[test]
fn test_check_api_response_auth_error_401() {
    let config = ServerConfig {
        anythingllm_base_url: "http://anythingllm:3001".to_string(),
        anythingllm_api_key: "key".to_string(),
        transport: TransportConfig::Stdio,
    };
    let server = AnythingLlmServer::new(config);
    let err = server.check_api_response(
        "test_tool",
        "http://localhost/api/test",
        HttpStatus::from_u16(401).unwrap(),
        "Unauthorized".to_string(),
    );
    let msg = err.to_string();
    assert!(msg.contains("API key"));
    assert!(msg.contains("TROUBLESHOOTING"));
    assert!(msg.contains("401"));
}

#[test]
fn test_check_api_response_auth_error_403() {
    let config = ServerConfig {
        anythingllm_base_url: "http://anythingllm:3001".to_string(),
        anythingllm_api_key: "key".to_string(),
        transport: TransportConfig::Stdio,
    };
    let server = AnythingLlmServer::new(config);
    let err = server.check_api_response(
        "test_tool",
        "http://localhost/api/test",
        HttpStatus::from_u16(403).unwrap(),
        "Forbidden".to_string(),
    );
    let msg = err.to_string();
    assert!(msg.contains("API key"));
    assert!(msg.contains("TROUBLESHOOTING"));
    assert!(msg.contains("403"));
}

#[test]
fn test_check_api_response_non_auth_error() {
    let config = ServerConfig {
        anythingllm_base_url: "http://anythingllm:3001".to_string(),
        anythingllm_api_key: "key".to_string(),
        transport: TransportConfig::Stdio,
    };
    let server = AnythingLlmServer::new(config);
    let err = server.check_api_response(
        "my_tool",
        "http://localhost/api/resource",
        HttpStatus::from_u16(404).unwrap(),
        "Not Found".to_string(),
    );
    let msg = err.to_string();
    assert!(msg.contains("my_tool"));
    assert!(msg.contains("404"));
    assert!(msg.contains("Not Found"));
    assert!(!msg.contains("TROUBLESHOOTING"));
    assert!(msg.contains("URL: http://localhost/api/resource"));
}

#[test]
fn test_check_api_response_server_error() {
    let config = ServerConfig {
        anythingllm_base_url: "http://anythingllm:3001".to_string(),
        anythingllm_api_key: "key".to_string(),
        transport: TransportConfig::Stdio,
    };
    let server = AnythingLlmServer::new(config);
    let err = server.check_api_response(
        "server_tool",
        "http://localhost/api/error",
        HttpStatus::from_u16(500).unwrap(),
        "Internal error".to_string(),
    );
    let msg = err.to_string();
    assert!(msg.contains("500"));
    assert!(msg.contains("Internal error"));
    assert!(!msg.contains("TROUBLESHOOTING"));
}

// hex_digit

#[test]
fn test_hex_digit_lowercase() {
    assert_eq!(hex_digit(b'0').unwrap(), 0);
    assert_eq!(hex_digit(b'9').unwrap(), 9);
    assert_eq!(hex_digit(b'a').unwrap(), 10);
    assert_eq!(hex_digit(b'f').unwrap(), 15);
}

#[test]
fn test_hex_digit_uppercase() {
    assert_eq!(hex_digit(b'A').unwrap(), 10);
    assert_eq!(hex_digit(b'F').unwrap(), 15);
}

#[test]
fn test_hex_digit_invalid() {
    assert!(hex_digit(b'g').is_err());
    assert!(hex_digit(b'z').is_err());
    assert!(hex_digit(b'@').is_err());
    assert!(hex_digit(b' ').is_err());
}

// hex_to_byte

#[test]
fn test_hex_to_byte_valid() {
    assert_eq!(hex_to_byte(b'0', b'0').unwrap(), 0x00);
    assert_eq!(hex_to_byte(b'F', b'F').unwrap(), 0xFF);
    assert_eq!(hex_to_byte(b'A', b'B').unwrap(), 0xAB);
    assert_eq!(hex_to_byte(b'1', b'a').unwrap(), 0x1A);
}

#[test]
fn test_hex_to_byte_invalid() {
    assert!(hex_to_byte(b'G', b'0').is_err());
    assert!(hex_to_byte(b'0', b' ').is_err());
}

// percent_decode

#[test]
fn test_percent_decode_no_encoding() {
    let result = percent_decode("Hello World").unwrap();
    assert_eq!(result, b"Hello World");
}

#[test]
fn test_percent_decode_simple() {
    let result = percent_decode("Hello%20World").unwrap();
    assert_eq!(result, b"Hello World");
}

#[test]
fn test_percent_decode_hex() {
    let result = percent_decode("%48%65%6C%6C%6F").unwrap();
    assert_eq!(result, b"Hello");
}

#[test]
fn test_percent_decode_mixed() {
    let result = percent_decode("a%20b%20c").unwrap();
    assert_eq!(result, b"a b c");
}

#[test]
fn test_percent_decode_truncated() {
    assert!(percent_decode("%4").is_err());
    assert!(percent_decode("%").is_err());
}

#[test]
fn test_percent_decode_empty() {
    let result = percent_decode("").unwrap();
    assert!(result.is_empty());
}

// parse_data_url

#[test]
fn test_parse_data_url_base64_pdf() {
    let (data, mime) = parse_data_url("data:application/pdf;base64,SGVsbG8=").unwrap();
    assert_eq!(data, b"Hello");
    assert_eq!(mime, "application/pdf");
}

#[test]
fn test_parse_data_url_base64_png() {
    let (data, mime) = parse_data_url("data:image/png;base64,iVBORw0KGgo=").unwrap();
    assert_eq!(data, b"\x89PNG\r\n\x1a\n");
    assert_eq!(mime, "image/png");
}

#[test]
fn test_parse_data_url_percent_encoded() {
    let (data, mime) = parse_data_url("data:text/plain,Hello%20World").unwrap();
    assert_eq!(data, b"Hello World");
    assert_eq!(mime, "text/plain");
}

#[test]
fn test_parse_data_url_no_mime_defaults_to_octet_stream() {
    let (data, mime) = parse_data_url("data:;base64,SGVsbG8=").unwrap();
    assert_eq!(data, b"Hello");
    assert_eq!(mime, "application/octet-stream");
}

#[test]
fn test_parse_data_url_missing_data_prefix() {
    assert!(parse_data_url("not-a-data-url").is_err());
}

#[test]
fn test_parse_data_url_missing_comma() {
    assert!(parse_data_url("data:text/plain").is_err());
}

#[test]
fn test_parse_data_url_invalid_base64() {
    assert!(parse_data_url("data:text/plain;base64,!!!invalid!!!").is_err());
}

// parse_file_input

#[test]
fn test_parse_file_input_data_url() {
    let (data, mime) =
        parse_file_input("data:application/pdf;base64,SGVsbG8=").unwrap();
    assert_eq!(data, b"Hello");
    assert_eq!(mime, "application/pdf");
}

#[test]
fn test_parse_file_input_raw_base64() {
    let (data, mime) = parse_file_input("SGVsbG8=").unwrap();
    assert_eq!(data, b"Hello");
    assert_eq!(mime, "application/octet-stream");
}

#[test]
fn test_parse_file_input_invalid_raw_base64() {
    assert!(parse_file_input("!!!invalid!!!").is_err());
}

// format_search_results

#[test]
fn test_format_search_results_empty() {
    let json = r#"{"results": []}"#;
    let result = format_search_results(json, "test-ws").unwrap();
    assert!(result.contains("No results found"));
    assert!(result.contains("test-ws"));
}

#[test]
fn test_format_search_results_with_results() {
    let json = r#"{
        "results": [
            {
                "id": "chunk-1",
                "text": "This is the first matching chunk of text from a document.",
                "metadata": {"title": "Annual Report"},
                "distance": 0.15,
                "score": 0.92
            },
            {
                "id": "chunk-2",
                "text": "This is another chunk with different content.",
                "metadata": {"title": "Meeting Notes"},
                "distance": 0.35,
                "score": 0.78
            }
        ]
    }"#;
    let result = format_search_results(json, "research").unwrap();
    assert!(result.contains("Found 2 result(s)"));
    assert!(result.contains("research"));
    assert!(result.contains("Annual Report"));
    assert!(result.contains("Meeting Notes"));
    assert!(result.contains("Score: 0.920"));
    assert!(result.contains("Distance: 0.150"));
    assert!(result.contains("first matching chunk"));
    assert!(result.contains("another chunk"));
}

#[test]
fn test_format_search_results_long_text_not_truncated() {
    let long_text = "A".repeat(1000);
    let json = format!(
        r#"{{"results": [{{"id": "c1", "text": "{}", "metadata": {{"title": "Long Doc"}}, "distance": 0.1, "score": 0.99}}]}}"#,
        long_text
    );
    let result = format_search_results(&json, "ws").unwrap();
    assert!(result.len() > 1050); // full text preserved
    assert!(result.contains(&"A".repeat(1000))); // all 1000 chars present
    assert!(!result.contains("...")); // no ellipsis
}

#[test]
fn test_format_search_results_fallback() {
    let json = r#"{"error": "something broke"}"#;
    let result = format_search_results(json, "broken-ws").unwrap();
    assert!(result.contains("broken-ws"));
}

#[test]
fn test_format_search_results_single_result() {
    let json = r#"{"results": [{"id": "c1", "text": "chunk text", "metadata": {"title": "Doc"}, "distance": 0.2, "score": 0.85}]}"#;
    let result = format_search_results(json, "ws").unwrap();
    assert!(result.contains("Found 1 result(s)"));
    assert!(result.contains("Score: 0.850"));
    assert!(result.contains("Distance: 0.200"));
    assert!(result.contains("chunk text"));
}

#[test]
fn test_format_search_results_missing_fields() {
    let json = r#"{"results": [{"id": "c1", "text": "only text"}]}"#;
    let result = format_search_results(json, "ws").unwrap();
    assert!(result.contains("Score: 0.000"));
    assert!(result.contains("Distance: 0.000"));
    assert!(result.contains("only text"));
}

#[test]
fn test_format_search_results_missing_text_field() {
    let json = r#"{"results": [{"id": "c1", "score": 0.9}]}"#;
    let result = format_search_results(json, "ws").unwrap();
    // text defaults to empty, title defaults to empty
    assert!(result.contains("Score: 0.900"));
}

#[test]
fn test_format_search_results_null_score() {
    let json = r#"{"results": [{"id": "c1", "text": "hello", "score": null, "distance": null}]}"#;
    let result = format_search_results(json, "ws").unwrap();
    assert!(result.contains("Score: 0.000"));
    assert!(result.contains("Distance: 0.000"));
}

// format_workspace_document_list

#[test]
fn test_format_workspace_document_list_empty() {
    let json = r#"{"workspace":{"name":"Test WS","slug":"test-ws","documents":[]}}"#;
    let result = format_workspace_document_list(json, "test-ws").unwrap();
    assert!(result.contains("has no documents"));
    assert!(result.contains("Test WS"));
}

#[test]
fn test_format_workspace_document_list_with_docs() {
    let json = r#"{
        "workspace": {
            "name": "Research",
            "slug": "research",
            "documents": [
                {
                    "id": 1,
                    "docpath": "custom-documents/report.pdf-uuid123.json",
                    "metadata": "{\"title\": \"Annual Report\"}",
                    "pinned": false,
                    "watched": false,
                    "createdAt": "2025-01-15 10:00:00",
                    "lastUpdatedAt": "2025-01-15 10:00:00"
                },
                {
                    "id": 2,
                    "docpath": "custom-documents/notes.txt-uuid456.json",
                    "metadata": "{\"title\": \"Meeting Notes\"}",
                    "pinned": false,
                    "watched": false,
                    "createdAt": "2025-01-16 14:30:00",
                    "lastUpdatedAt": "2025-01-16 14:30:00"
                }
            ]
        }
    }"#;
    let result = format_workspace_document_list(json, "research").unwrap();
    assert!(result.contains("Research"));
    assert!(result.contains("2 document(s)"));
    assert!(result.contains("Annual Report"));
    assert!(result.contains("Meeting Notes"));
    assert!(result.contains("custom-documents/report.pdf-uuid123.json"));
    assert!(result.contains("custom-documents/notes.txt-uuid456.json"));
    assert!(result.contains("[1]"));
    assert!(result.contains("[2]"));
}

#[test]
fn test_format_workspace_document_list_fallback() {
    let json = r#"{"workspace": {"name": "Test"}}"#;
    let result = format_workspace_document_list(json, "test-ws").unwrap();
    assert!(result.contains("test-ws")); // fallback to raw JSON
}

#[test]
fn test_format_workspace_document_list_no_documents_key() {
    let json = r#"{"workspace": {"name": "Empty WS", "slug": "empty"}}"#;
    let result = format_workspace_document_list(json, "empty").unwrap();
    assert!(result.contains("empty"));
}

#[test]
fn test_format_workspace_document_list_non_json_metadata() {
    let json = r#"{
        "workspace": {
            "name": "Test",
            "slug": "test",
            "documents": [
                {"id": 1, "docpath": "path.json", "metadata": "not-json-{{", "createdAt": "2025-01-01"}
            ]
        }
    }"#;
    let result = format_workspace_document_list(json, "test").unwrap();
    assert!(result.contains("1 document(s)"));
    assert!(result.contains("path.json"));
}

#[test]
fn test_format_workspace_document_list_missing_fields() {
    let json = r#"{
        "workspace": {
            "name": "Minimal",
            "slug": "min",
            "documents": [
                {"id": null},
                {"docpath": null}
            ]
        }
    }"#;
    let result = format_workspace_document_list(json, "min").unwrap();
    assert!(result.contains("2 document(s)"));
    assert!(result.contains("[0]"));
    assert!(result.contains("unknown"));
}

#[test]
fn test_format_workspace_document_list_workspaces_array_fallback() {
    let json = r#"{"workspaces": [{"name": "From Array", "slug": "arr", "documents": [{"id": 1, "docpath": "doc.json", "metadata": "{}", "createdAt": "2025-01-01"}]}]}"#;
    let result = format_workspace_document_list(json, "arr").unwrap();
    assert!(result.contains("From Array"));
    assert!(result.contains("1 document(s)"));
}

// format_workspace_details

#[test]
fn test_format_workspace_details_full() {
    let json = r#"{
        "workspace": {
            "id": 79,
            "name": "My workspace",
            "slug": "my-workspace-123",
            "createdAt": "2023-08-17 00:45:03",
            "openAiTemp": null,
            "lastUpdatedAt": "2023-08-17 01:00:00",
            "openAiHistory": 20,
            "openAiPrompt": null,
            "documents": [{"id": 1, "docpath": "doc.json"}],
            "threads": [{"id": 1}]
        }
    }"#;
    let result = format_workspace_details(json, "my-workspace-123").unwrap();
    assert!(result.contains("My workspace"));
    assert!(result.contains("my-workspace-123"));
    assert!(result.contains("Documents: 1"));
    assert!(result.contains("Threads: 1"));
    assert!(result.contains("2023-08-17 00:45:03"));
    assert!(result.contains("2023-08-17 01:00:00"));
}

#[test]
fn test_format_workspace_details_no_docs_no_threads() {
    let json = r#"{
        "workspace": {
            "name": "Empty",
            "slug": "empty",
            "createdAt": "2024-01-01",
            "lastUpdatedAt": "2024-01-01",
            "documents": [],
            "threads": []
        }
    }"#;
    let result = format_workspace_details(json, "empty").unwrap();
    assert!(result.contains("Documents: 0"));
    assert!(result.contains("Threads: 0"));
}

#[test]
fn test_format_workspace_details_fallback() {
    let json = r#"{"error": "not found"}"#;
    let result = format_workspace_details(json, "missing-ws").unwrap();
    assert!(result.contains("missing-ws"));
}

#[test]
fn test_format_workspace_details_null_fields() {
    let json = r#"{
        "workspace": {
            "name": null,
            "slug": null,
            "createdAt": null,
            "lastUpdatedAt": null,
            "documents": null,
            "threads": null
        }
    }"#;
    let result = format_workspace_details(json, "slug-only").unwrap();
    assert!(result.contains("slug-only"));
    assert!(result.contains("Documents: 0"));
    assert!(result.contains("Threads: 0"));
}

#[test]
fn test_format_workspace_details_workspaces_array_fallback() {
    let json = r#"{"workspaces": [{"name": "Arr WS", "slug": "arr-ws", "documents": [], "threads": []}]}"#;
    let result = format_workspace_details(json, "arr-ws").unwrap();
    assert!(result.contains("Arr WS"));
    assert!(result.contains("arr-ws"));
}

#[test]
fn test_parse_file_input_empty() {
    let (data, mime) = parse_file_input("").unwrap();
    assert!(data.is_empty());
    assert_eq!(mime, "application/octet-stream");
}

#[test]
fn test_parse_file_input_data_url_no_mime() {
    let (data, mime) = parse_file_input("data:;base64,SGVsbG8=").unwrap();
    assert_eq!(data, b"Hello");
    assert_eq!(mime, "application/octet-stream");
}

#[test]
fn test_parse_file_input_data_url_with_spaces_is_error() {
    // base64 does not allow spaces; this should fail
    assert!(parse_file_input("data:text/plain;base64, SGVsbG8=").is_err());
}

#[test]
fn test_parse_data_url_empty_encoded() {
    let (data, mime) = parse_data_url("data:text/plain,").unwrap();
    assert!(data.is_empty());
    assert_eq!(mime, "text/plain");
}

#[test]
fn test_parse_data_url_only_mime() {
    let (data, mime) = parse_data_url("data:image/png;base64,").unwrap();
    assert!(data.is_empty());
    assert_eq!(mime, "image/png");
}

#[test]
fn test_hex_digit_boundaries() {
    assert_eq!(hex_digit(b'0').unwrap(), 0);
    assert_eq!(hex_digit(b'9').unwrap(), 9);
    assert_eq!(hex_digit(b'a').unwrap(), 10);
    assert_eq!(hex_digit(b'f').unwrap(), 15);
    assert_eq!(hex_digit(b'A').unwrap(), 10);
    assert_eq!(hex_digit(b'F').unwrap(), 15);
}

#[test]
fn test_hex_to_byte_boundaries() {
    assert_eq!(hex_to_byte(b'0', b'0').unwrap(), 0x00);
    assert_eq!(hex_to_byte(b'F', b'F').unwrap(), 0xFF);
    assert_eq!(hex_to_byte(b'7', b'f').unwrap(), 0x7F);
    assert_eq!(hex_to_byte(b'8', b'0').unwrap(), 0x80);
}

#[test]
fn test_percent_decode_all_encoded() {
    let result = percent_decode("%48%65%6C%6C%6F%20%57%6F%72%6C%64").unwrap();
    assert_eq!(result, b"Hello World");
}

#[test]
fn test_percent_decode_special_chars() {
    let result = percent_decode("%21%40%23%24%25%5E%26%2A%28%29").unwrap();
    assert_eq!(result, b"!@#$%^&*()");
}

#[test]
fn test_percent_decode_invalid_hex() {
    assert!(percent_decode("%GG").is_err());
    assert!(percent_decode("%0G").is_err());
}
