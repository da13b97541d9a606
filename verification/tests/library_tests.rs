use liberado_anythingllm_mcp::api::{
    create_workspace_body, delete_document_body, delete_document_message, ingest_file_message,
    ingest_text_body, ingest_text_message, ingest_url_body, ingest_url_message,
    prepare_file_upload, request_failure, search_body, status_to_string, update_embeddings_path,
    vector_search_path, workspace_path,
};
use liberado_anythingllm_mcp::responses::{
    render_create_workspace, render_document_list, render_search_results,
    render_workspace_details, render_workspace_list, DocumentEntry, DocumentListing, SearchHit,
    WorkspaceDetails, WorkspaceEntry,
};
use liberado_anythingllm_mcp::{
    format_create_workspace, format_list_workspaces, format_search_results,
    format_workspace_details, format_workspace_document_list, hex_digit, hex_to_byte,
    parse_data_url, parse_file_input, percent_decode, AnythingLlmServer, HttpStatus, InputError,
    JsonField, ServerConfig, TransportConfig,
};

fn server(base: &str, key: &str) -> AnythingLlmServer {
    AnythingLlmServer::new(ServerConfig {
        anythingllm_base_url: base.to_string(),
        anythingllm_api_key: key.to_string(),
        transport: TransportConfig::Stdio,
    })
}

// hex digits

#[test]
fn hex_digit_accepts_exactly_hex_bytes() {
    for b in 0u8..=255 {
        let expected = (b as char).to_digit(16).map(|d| d as u8);
        assert_eq!(hex_digit(b).ok(), expected, "byte {}", b);
    }
}

#[test]
fn hex_digit_is_case_insensitive() {
    for (lower, upper) in (b'a'..=b'f').zip(b'A'..=b'F') {
        assert_eq!(hex_digit(lower).unwrap(), hex_digit(upper).unwrap());
    }
}

#[test]
fn hex_to_byte_is_high_then_low() {
    for hi in 0u8..16 {
        for lo in 0u8..16 {
            let h = std::char::from_digit(hi as u32, 16).unwrap() as u8;
            let l = std::char::from_digit(lo as u32, 16).unwrap() as u8;
            assert_eq!(hex_to_byte(h, l).unwrap(), hi * 16 + lo);
        }
    }
}

#[test]
fn hex_to_byte_reports_first_bad_digit() {
    match hex_to_byte(b'x', b'y') {
        Err(InputError::InvalidHexDigit(b)) => assert_eq!(b, b'x'),
        other => panic!("unexpected {:?}", other),
    }
    match hex_to_byte(b'1', b'y') {
        Err(InputError::InvalidHexDigit(b)) => assert_eq!(b, b'y'),
        other => panic!("unexpected {:?}", other),
    }
}

// percent decoding

#[test]
fn percent_decode_without_percent_is_identity() {
    for text in ["", "plain", "a+b=c&d", "héllo wörld", "日本語"] {
        assert_eq!(percent_decode(text).unwrap(), text.as_bytes());
    }
}

#[test]
fn percent_decode_of_full_encoding_round_trips() {
    let bytes: Vec<u8> = (0u8..=255).collect();
    let encoded: String = bytes.iter().map(|b| format!("%{:02X}", b)).collect();
    assert_eq!(percent_decode(&encoded).unwrap(), bytes);
    let lower: String = bytes.iter().map(|b| format!("%{:02x}", b)).collect();
    assert_eq!(percent_decode(&lower).unwrap(), bytes);
}

#[test]
fn percent_decode_errors() {
    assert!(matches!(percent_decode("ab%4"), Err(InputError::TruncatedPercentEncoding)));
    assert!(matches!(percent_decode("%G0"), Err(InputError::InvalidHexDigit(b'G'))));
    assert!(matches!(percent_decode("%%41"), Err(InputError::InvalidHexDigit(b'%'))));
    // the first problem wins
    assert!(matches!(percent_decode("%zz%"), Err(InputError::InvalidHexDigit(b'z'))));
    assert_eq!(percent_decode("100%25").unwrap(), b"100%");
}

// data URLs and file input

#[test]
fn parse_data_url_strips_every_base64_marker() {
    let (data, mime) = parse_data_url("data:text/plain;base64;base64,SGk=").unwrap();
    assert_eq!(data, b"Hi");
    assert_eq!(mime, "text/plain");
    let (data, mime) = parse_data_url("data:;base64;base64,SGk=").unwrap();
    assert_eq!(data, b"Hi");
    assert_eq!(mime, "application/octet-stream");
}

#[test]
fn parse_data_url_uses_first_comma() {
    let (data, mime) = parse_data_url("data:text/csv,a,b%2Cc").unwrap();
    assert_eq!(data, b"a,b,c");
    assert_eq!(mime, "text/csv");
}

#[test]
fn parse_data_url_keeps_non_ascii_media_type() {
    let (data, mime) = parse_data_url("data:text/é;charset=ü,x").unwrap();
    assert_eq!(data, b"x");
    assert_eq!(mime, "text/é;charset=ü");
}

#[test]
fn parse_data_url_percent_payload_keeps_utf8() {
    let (data, mime) = parse_data_url("data:,é%20").unwrap();
    assert_eq!(data, "é ".as_bytes());
    assert_eq!(mime, "application/octet-stream");
}

#[test]
fn parse_data_url_error_variants() {
    assert!(matches!(parse_data_url("DATA:text/plain,x"), Err(InputError::MissingDataPrefix)));
    assert!(matches!(parse_data_url("data"), Err(InputError::MissingDataPrefix)));
    assert!(matches!(parse_data_url("data:text/plain"), Err(InputError::MissingComma)));
    assert!(matches!(parse_data_url("data:text/plain,%4"), Err(InputError::TruncatedPercentEncoding)));
    match parse_data_url("data:;base64,@@@@") {
        Err(InputError::Base64Decode(msg)) => assert!(!msg.is_empty()),
        other => panic!("unexpected {:?}", other),
    }
}

#[test]
fn parse_file_input_raw_base64_error_message() {
    match parse_file_input("@@@@") {
        Err(e @ InputError::InvalidRawBase64(_)) => {
            let m = e.message();
            assert!(m.starts_with("Invalid base64 input: "));
            assert!(m.ends_with(". Provide a data URL (data:<mime>;base64,<data>) or raw base64."));
        }
        other => panic!("unexpected {:?}", other),
    }
}

#[test]
fn parse_file_input_base64_decodes_bytes() {
    assert_eq!(parse_file_input("AAEC/w==").unwrap().0, vec![0u8, 1, 2, 255]);
    // padding is required by the standard engine
    assert!(parse_file_input("SGVsbG8").is_err());
}

#[test]
fn input_error_messages() {
    assert_eq!(InputError::InvalidHexDigit(b'g').message(), "Invalid hex digit: g");
    assert_eq!(InputError::TruncatedPercentEncoding.message(), "Truncated percent encoding");
    assert_eq!(InputError::MissingDataPrefix.message(), "Data URL must start with 'data:'");
    assert_eq!(
        InputError::MissingComma.message(),
        "Invalid data URL: missing comma separator"
    );
    assert_eq!(
        InputError::Base64Decode("bad".to_string()).message(),
        "Base64 decode error: bad"
    );
    assert_eq!(
        InputError::InvalidRawBase64("bad".to_string()).message(),
        "Invalid base64 input: bad. Provide a data URL (data:<mime>;base64,<data>) or raw base64."
    );
}

// rendering

fn hit(title: &str, text: &str, score: &str, distance: &str) -> SearchHit {
    SearchHit {
        title: title.to_string(),
        text: text.to_string(),
        score: score.to_string(),
        distance: distance.to_string(),
    }
}

#[test]
fn render_search_results_exact() {
    let hits = vec![hit("T1", "one", "0.920", "0.150"), hit("", "two", "0.000", "0.000")];
    assert_eq!(
        render_search_results("ws", Some(&hits), "raw"),
        "Found 2 result(s) in workspace 'ws':\n\n\
         1. [Score: 0.920, Distance: 0.150] T1\n   one\n\n\
         2. [Score: 0.000, Distance: 0.000] \n   two\n\n"
    );
    assert_eq!(
        render_search_results("ws", Some(&vec![]), "raw"),
        "No results found in workspace 'ws'."
    );
    assert_eq!(
        render_search_results("ws", None, "raw"),
        "Search results for workspace 'ws':\nraw"
    );
}

#[test]
fn format_search_results_exact() {
    let json = r#"{"results": [{"text": "hello", "score": 1, "distance": 0.25, "metadata": {"title": "Doc"}}]}"#;
    assert_eq!(
        format_search_results(json, "ws").unwrap(),
        "Found 1 result(s) in workspace 'ws':\n\n1. [Score: 1.000, Distance: 0.250] Doc\n   hello\n\n"
    );
    // not JSON at all: the reply is shown as it came
    assert_eq!(
        format_search_results("oops", "ws").unwrap(),
        "Search results for workspace 'ws':\noops"
    );
    // results that is not an array
    assert_eq!(
        format_search_results(r#"{"results": {}}"#, "ws").unwrap(),
        "Search results for workspace 'ws':\n{\"results\": {}}"
    );
}

#[test]
fn format_search_results_many_results_numbered_in_order() {
    let items: Vec<String> =
        (0..12).map(|i| format!(r#"{{"text": "t{}", "score": 0.5}}"#, i)).collect();
    let json = format!(r#"{{"results": [{}]}}"#, items.join(","));
    let out = format_search_results(&json, "ws").unwrap();
    assert!(out.starts_with("Found 12 result(s)"));
    for i in 0..12 {
        assert!(out.contains(&format!("{}. [Score: 0.500, Distance: 0.000] \n   t{}\n\n", i + 1, i)));
    }
}

#[test]
fn render_document_list_exact() {
    let listing = DocumentListing {
        name: "W".to_string(),
        documents: vec![DocumentEntry {
            id: -3,
            title: "T".to_string(),
            docpath: "p.json".to_string(),
            created: "now".to_string(),
        }],
    };
    assert_eq!(
        render_document_list("w", Some(&listing), "raw"),
        "Workspace 'W' has 1 document(s):\n\n1. [-3] T\n   Docpath: p.json\n   Created: now\n\n"
    );
    let empty = DocumentListing { name: "W".to_string(), documents: vec![] };
    assert_eq!(render_document_list("w", Some(&empty), "raw"), "Workspace 'W' has no documents.");
    assert_eq!(render_document_list("w", None, "raw"), "Workspace 'w':\nraw");
}

#[test]
fn format_workspace_document_list_exact() {
    let json = r#"{"workspace": {"name": "R", "documents": [{"id": 7, "docpath": "a.json", "metadata": "{\"title\": \"A\"}", "createdAt": "d"}, {}]}}"#;
    assert_eq!(
        format_workspace_document_list(json, "r").unwrap(),
        "Workspace 'R' has 2 document(s):\n\n\
         1. [7] A\n   Docpath: a.json\n   Created: d\n\n\
         2. [0] \n   Docpath: unknown\n   Created: \n\n"
    );
    // a null workspace wins over a workspaces array
    let null_ws = r#"{"workspace": null, "workspaces": [{"name": "X", "documents": []}]}"#;
    assert_eq!(
        format_workspace_document_list(null_ws, "s").unwrap(),
        format!("Workspace 's':\n{}", null_ws)
    );
    // an empty workspaces array has no first workspace
    let none = r#"{"workspaces": []}"#;
    assert_eq!(
        format_workspace_document_list(none, "s").unwrap(),
        format!("Workspace 's':\n{}", none)
    );
}

#[test]
fn render_workspace_details_exact() {
    let d = WorkspaceDetails {
        name: "N".to_string(),
        slug: "n".to_string(),
        documents: 2,
        threads: 0,
        created: "c".to_string(),
        updated: "u".to_string(),
        settings: vec![
            ("Chat Mode".to_string(), "chat".to_string()),
            ("Temperature".to_string(), "0.700".to_string()),
        ],
    };
    assert_eq!(
        render_workspace_details("n", Some(&d), "raw"),
        "Workspace: N\nSlug: n\nDocuments: 2\nThreads: 0\nCreated: c\nLast Updated: u\nSettings:\n  Chat Mode: chat\n  Temperature: 0.700"
    );
    assert_eq!(render_workspace_details("n", None, "raw"), "Workspace 'n':\nraw");
}

const NO_SETTINGS: &str = "\nSettings:\n  Chat Mode: (not set)\n  Chat Provider: (not set)\n  Chat Model: (not set)\n  Temperature: (not set)\n  History Length: (not set)\n  Similarity Threshold: (not set)\n  Top N: (not set)\n  Vector Search Mode: (not set)\n  Query Refusal Response: (not set)\n  System Prompt: (not set)";

#[test]
fn format_workspace_details_exact() {
    let json = r#"{"workspace": {"name": "N", "slug": "n", "documents": [1, 2, 3], "threads": [{}], "createdAt": "c", "lastUpdatedAt": "u"}}"#;
    assert_eq!(
        format_workspace_details(json, "n").unwrap(),
        format!("Workspace: N\nSlug: n\nDocuments: 3\nThreads: 1\nCreated: c\nLast Updated: u{}", NO_SETTINGS)
    );
    assert_eq!(format_workspace_details("[]", "n").unwrap(), "Workspace 'n':\n[]");
}

#[test]
fn format_workspace_details_shows_settings() {
    let json = r#"{"workspace": {"name": "N", "slug": "n", "chatMode": "query", "chatProvider": null, "chatModel": "gpt-4o", "openAiTemp": 0.7, "openAiHistory": 20, "similarityThreshold": 0.25, "topN": 4, "vectorSearchMode": ["x"], "queryRefusalResponse": true, "openAiPrompt": "Be brief."}}"#;
    let out = format_workspace_details(json, "n").unwrap();
    assert!(out.ends_with(
        "\nSettings:\n  Chat Mode: query\n  Chat Provider: (not set)\n  Chat Model: gpt-4o\n  Temperature: 0.700\n  History Length: 20\n  Similarity Threshold: 0.250\n  Top N: 4\n  Vector Search Mode: (structured value)\n  Query Refusal Response: true\n  System Prompt: Be brief."
    ));
    assert!(out.starts_with("Workspace: N\nSlug: n\nDocuments: 0\nThreads: 0\n"));
}

#[test]
fn render_workspace_list_exact() {
    let entries = vec![
        WorkspaceEntry { name: "A".to_string(), slug: "a".to_string() },
        WorkspaceEntry { name: "B".to_string(), slug: "b".to_string() },
    ];
    assert_eq!(
        render_workspace_list(Some(&entries), "raw"),
        "Found 2 workspace(s):\n\n1. A (slug: a)\n2. B (slug: b)\n"
    );
    assert_eq!(render_workspace_list(Some(&vec![]), "raw"), "No workspaces found.");
    assert_eq!(render_workspace_list(None, "raw"), "Workspaces:\nraw");
}

#[test]
fn format_list_workspaces_exact() {
    let json = r#"{"workspaces": [{"name": "A", "slug": "a"}, {"slug": 5}]}"#;
    assert_eq!(
        format_list_workspaces(json).unwrap(),
        "Found 2 workspace(s):\n\n1. A (slug: a)\n2. unnamed (slug: n/a)\n"
    );
    assert_eq!(format_list_workspaces(r#"{"workspaces": []}"#).unwrap(), "No workspaces found.");
    assert_eq!(format_list_workspaces("<html>").unwrap(), "Workspaces:\n<html>");
}

#[test]
fn create_workspace_exact() {
    assert_eq!(
        format_create_workspace(r#"{"workspace": {"slug": "my-ws"}}"#, "My WS").unwrap(),
        "Successfully created workspace 'My WS' with slug 'my-ws'."
    );
    assert_eq!(
        format_create_workspace(r#"{"workspace": {"slug": 1}}"#, "My WS").unwrap(),
        "Successfully created workspace 'My WS'.\n\nResponse: {\"workspace\": {\"slug\": 1}}"
    );
    assert_eq!(
        render_create_workspace("n", None, "r"),
        "Successfully created workspace 'n'.\n\nResponse: r"
    );
}

// API requests and errors

#[test]
fn api_url_and_auth_header_exact() {
    let s = server("http://h:1", "k");
    assert_eq!(s.api_url(""), "http://h:1/api");
    assert_eq!(s.api_url(&workspace_path("x")), "http://h:1/api/v1/workspace/x");
    assert_eq!(s.auth_header(), "Bearer k");
}

#[test]
fn api_paths() {
    assert_eq!(workspace_path("a b"), "/v1/workspace/a b");
    assert_eq!(vector_search_path("s"), "/v1/workspace/s/vector-search");
    assert_eq!(update_embeddings_path("s"), "/v1/workspace/s/update-embeddings");
}

#[test]
fn status_text_and_classes() {
    assert_eq!(status_to_string(HttpStatus::from_u16(404).unwrap()), "404 Not Found");
    assert_eq!(status_to_string(HttpStatus::from_u16(599).unwrap()), "599 <unknown status code>");
    assert!(HttpStatus::from_u16(99).is_none());
    assert!(HttpStatus::from_u16(1000).is_none());
    assert!(HttpStatus::from_u16(200).unwrap().is_success());
    assert!(HttpStatus::from_u16(299).unwrap().is_success());
    assert!(!HttpStatus::from_u16(300).unwrap().is_success());
    assert_eq!(HttpStatus::from_u16(418).unwrap().as_u16(), 418);
}

#[test]
fn check_api_response_exact_reason() {
    let s = server("http://h:1", "k");
    let f = s.check_api_response("t", "http://u", HttpStatus::from_u16(404).unwrap(), "nf".to_string());
    assert_eq!(f.tool, "t");
    assert_eq!(f.reason, "AnythingLLM API error (404 Not Found): nf\n\n  URL: http://u");
    let auth = s.check_api_response("t", "http://u", HttpStatus::from_u16(401).unwrap(), "no".to_string());
    assert!(auth.reason.starts_with(
        "AnythingLLM API error (401 Unauthorized): no\n\n  REASON: The API key sent by this MCP was rejected by AnythingLLM.\n  URL: http://u\n  TROUBLESHOOTING:\n  1. Verify"
    ));
    assert!(auth.reason.contains("strftime('%%s','now')"));
    assert!(auth.reason.ends_with("3. Restart the anythingllm container if the key still doesn't work."));
    assert_eq!(
        auth.to_string(),
        format!("Tool 't' failed: {} (operation: tool_execution)", auth.reason)
    );
}

#[test]
fn finish_response_by_status() {
    let s = server("http://h:1", "k");
    let ok = s.finish_response("t", "u", HttpStatus::from_u16(201).unwrap(), "body".to_string());
    assert_eq!(ok.unwrap(), "body");
    let err = s.finish_response("t", "u", HttpStatus::from_u16(500).unwrap(), "boom".to_string());
    let f = err.unwrap_err();
    assert_eq!(f.reason, "AnythingLLM API error (500 Internal Server Error): boom\n\n  URL: u");
}

#[test]
fn request_failure_reason() {
    let f = request_failure("ingest_url", "connection refused");
    assert_eq!(f.tool, "ingest_url");
    assert_eq!(f.reason, "HTTP request failed: connection refused");
}

fn fields(body: &liberado_anythingllm_mcp::JsonBody) -> Vec<String> {
    body.fields.iter().map(|(k, _)| k.clone()).collect()
}

#[test]
fn request_bodies() {
    let b = ingest_text_body("t".into(), "T".into(), "w".into(), Some("d".into()));
    assert_eq!(fields(&b), vec!["textContent", "metadata", "addToWorkspaces"]);
    match &b.fields[1].1 {
        JsonField::Object(m) => assert_eq!(
            m,
            &vec![("title".to_string(), "T".to_string()), ("description".to_string(), "d".to_string())]
        ),
        other => panic!("unexpected {:?}", other),
    }
    let b = ingest_text_body("t".into(), "T".into(), "w".into(), None);
    match &b.fields[1].1 {
        JsonField::Object(m) => assert_eq!(m.len(), 1),
        other => panic!("unexpected {:?}", other),
    }
    assert_eq!(fields(&ingest_url_body("u".into(), "w".into(), None)), vec!["link", "addToWorkspaces"]);
    assert_eq!(
        fields(&ingest_url_body("u".into(), "w".into(), Some("T".into()))),
        vec!["link", "addToWorkspaces", "metadata"]
    );
    assert_eq!(fields(&create_workspace_body("n".into())), vec!["name"]);
    let sb = search_body("q".into(), Some(3));
    assert_eq!(fields(&sb), vec!["query", "topN"]);
    assert!(matches!(sb.fields[1].1, JsonField::UInt(3)));
    assert_eq!(fields(&search_body("q".into(), None)), vec!["query"]);
    let db = delete_document_body("custom-documents/x.json".into());
    match (&db.fields[0].1, &db.fields[1].1) {
        (JsonField::Strings(a), JsonField::Strings(d)) => {
            assert!(a.is_empty());
            assert_eq!(d, &vec!["custom-documents/x.json".to_string()]);
        }
        other => panic!("unexpected {:?}", other),
    }
}

#[test]
fn success_messages() {
    assert_eq!(
        ingest_text_message("w", "{}"),
        "Successfully ingested text into workspace 'w'.\n\nResponse: {}"
    );
    assert_eq!(
        ingest_url_message("http://x", "w", "ok"),
        "Successfully ingested URL 'http://x' into workspace 'w'.\n\nResponse: ok"
    );
    assert_eq!(
        delete_document_message("s", "ok"),
        "Successfully deleted document from workspace 's'.\n\nResponse: ok"
    );
    assert_eq!(
        ingest_file_message("a.pdf", "w", "ok"),
        "Successfully ingested file 'a.pdf' into workspace 'w'.\n\nResponse: ok"
    );
}

#[test]
fn prepare_file_upload_title_defaults_to_filename() {
    let u = prepare_file_upload("data:application/pdf;base64,SGVsbG8=", "r.pdf".into(), None).unwrap();
    assert_eq!(u.bytes, b"Hello");
    assert_eq!(u.mime_type, "application/pdf");
    assert_eq!(u.file_name, "r.pdf");
    assert_eq!(u.title, "r.pdf");
    let u = prepare_file_upload("SGVsbG8=", "r.bin".into(), Some("Report".into())).unwrap();
    assert_eq!(u.title, "Report");
    assert_eq!(u.mime_type, "application/octet-stream");
    assert!(prepare_file_upload("data:x", "f".into(), None).is_err());
}


#[test]
fn data_url_round_trip_of_percent_encoding() {
    let payload: Vec<u8> = vec![0, 1, b',', b'%', 200, 255, b'a'];
    let encoded: String = payload.iter().map(|b| format!("%{:02X}", b)).collect();
    let url = format!("data:text/x-ü;charset=utf-8,{}", encoded);
    let (data, mime) = parse_data_url(&url).unwrap();
    assert_eq!(data, payload);
    assert_eq!(mime, "text/x-ü;charset=utf-8");
}
