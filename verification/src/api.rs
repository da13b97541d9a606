//! The AnythingLLM API surface: URLs and authentication, the requests each
//! tool sends, and how replies become tool results or failures.

use vstd::prelude::*;
use crate::config::ServerConfig;
use crate::data_url::{parse_file_input, spec_parse_file_input, InputError, InputErrorView};
use crate::text::{decimal, push_decimal, push_str};
use vstd::string::StringSliceAdditionalSpecFns;

verus! {

/// The text `turbomcp` shows for a tool-execution failure of tool `tool`
/// with reason `reason`: its message followed by the operation it records.
pub open spec fn mcp_tool_error_text(tool: Seq<char>, reason: Seq<char>) -> Seq<char> {
    "Tool '"@ + tool + "' failed: "@ + reason + " (operation: tool_execution)"@
}

/// Calls `turbomcp::McpError::tool_execution_failed` and renders the error
/// with its `Display` impl: the message `Tool '<tool>' failed: <reason>`,
/// then the operation `tool_execution` that the constructor records.
#[verifier::external_body]
fn mcp_tool_error_to_string(tool: &str, reason: &str) -> (r: String)
    ensures
        r@ == mcp_tool_error_text(tool@, reason@),
{
    turbomcp::McpError::tool_execution_failed(tool, reason).to_string()
}

/// A tool call that failed: the tool's name and why.
#[derive(Debug, Clone)]
pub struct ToolFailure {
    pub tool: String,
    pub reason: String,
}

impl ToolFailure {
    /// The text the MCP client is shown for this failure.
    pub fn to_string(&self) -> (r: String)
        ensures
            r@ == mcp_tool_error_text(self.tool@, self.reason@),
    {
        mcp_tool_error_to_string(self.tool.as_str(), self.reason.as_str())
    }
}

/// A failure to reach AnythingLLM at all; `detail` describes the transport error.
pub fn request_failure(tool: &str, detail: &str) -> (r: ToolFailure)
    ensures
        r.tool@ == tool@,
        r.reason@ == "HTTP request failed: "@ + detail@,
{
    let mut reason = "HTTP request failed: ".to_owned();
    push_str(&mut reason, detail);
    ToolFailure { tool: tool.to_owned(), reason }
}

/// An HTTP status code, always in the range 100..=999.
#[derive(Debug, Clone, Copy)]
pub struct HttpStatus {
    code: u16,
}

impl View for HttpStatus {
    type V = u16;

    closed spec fn view(&self) -> u16 {
        self.code
    }
}

impl HttpStatus {
    #[verifier::type_invariant]
    spec fn in_range(self) -> bool {
        100 <= self.code <= 999
    }

    /// The status with code `code`, if it lies in 100..=999.
    pub fn from_u16(code: u16) -> (r: Option<HttpStatus>)
        ensures
            r is Some <==> 100 <= code <= 999,
            r matches Some(s) ==> s@ == code,
    {
        if 100 <= code && code <= 999 {
            Some(HttpStatus { code })
        } else {
            None
        }
    }

    /// The numeric code.
    pub fn as_u16(&self) -> (r: u16)
        ensures
            r == self@,
            100 <= r <= 999,
    {
        proof {
            use_type_invariant(self);
        }
        self.code
    }

    /// Whether the status is in the 2xx class.
    pub fn is_success(&self) -> (r: bool)
        ensures
            r == (200 <= self@ < 300),
    {
        200 <= self.code && self.code < 300
    }
}

/// The reason phrase `http::StatusCode::canonical_reason` gives for `code`.
pub uninterp spec fn canonical_reason_phrase(code: u16) -> Option<Seq<char>>;

/// Calls `reqwest::StatusCode::from_u16` (which cannot fail in 100..=999) and
/// `canonical_reason`; the phrase is named by `canonical_reason_phrase`.
#[verifier::external_body]
fn canonical_reason(code: u16) -> (r: Option<&'static str>)
    requires
        100 <= code <= 999,
    ensures
        match canonical_reason_phrase(code) {
            Some(p) => r matches Some(x) && x@ == p,
            None => r is None,
        },
{
    match reqwest::StatusCode::from_u16(code) {
        Ok(s) => s.canonical_reason(),
        Err(_) => None,
    }
}

/// How a status is written: its code, a space, and its reason phrase.
pub open spec fn status_text(code: u16) -> Seq<char> {
    decimal(code as nat) + " "@ + match canonical_reason_phrase(code) {
        Some(p) => p,
        None => "<unknown status code>"@,
    }
}

/// Writes a status as its code followed by its reason phrase.
pub fn status_to_string(status: HttpStatus) -> (r: String)
    ensures
        r@ == status_text(status@),
{
    let code = status.as_u16();
    let mut s = String::new();
    push_decimal(&mut s, code as u64);
    push_str(&mut s, " ");
    match canonical_reason(code) {
        Some(p) => push_str(&mut s, p),
        None => push_str(&mut s, "<unknown status code>"),
    }
    s
}

/// Whether a status means the API key was refused (401 or 403).
pub open spec fn is_auth_error(code: u16) -> bool {
    code == 401 || code == 403
}

/// The troubleshooting text added to an error from `url` with status `code`.
pub open spec fn error_hint(url: Seq<char>, code: u16) -> Seq<char> {
    if is_auth_error(code) {
        auth_hint_head() + url + auth_hint_tail()
    } else {
        "\n\n  URL: "@ + url
    }
}

/// The part of the auth-error hint before the URL.
pub open spec fn auth_hint_head() -> Seq<char> {
    "\n\n  REASON: The API key sent by this MCP was rejected by AnythingLLM.\n  URL: "@
}

/// The part of the auth-error hint after the URL.
pub open spec fn auth_hint_tail() -> Seq<char> {
    "\n  \
     TROUBLESHOOTING:\n  \
     1. Verify the key in envs/_shared/auth.env (ANYTHINGLLM_API_KEY) matches a key\n  \
        in the AnythingLLM api_keys table:\n  \
        sqlite3 volumes/anythingllm/storage/anythingllm.db\n  \
          \"SELECT secret, name FROM api_keys;\"\n  \
     2. If missing, add the key from auth.env to the table:\n  \
        sqlite3 volumes/anythingllm/storage/anythingllm.db\n  \
          \"INSERT INTO api_keys (secret, createdAt, lastUpdatedAt, name)\n  \
           VALUES ('<key>', strftime('%%s','now')||'000',\n  \
                   strftime('%%s','now')||'000', 'liberado-anythingllm-mcp');\"\n  \
     3. Restart the anythingllm container if the key still doesn't work."@
}

/// The reason reported when AnythingLLM at `url` answered with status `code`
/// and body `body`.
pub open spec fn api_error_reason(url: Seq<char>, code: u16, body: Seq<char>) -> Seq<char> {
    "AnythingLLM API error ("@ + status_text(code) + "): "@ + body + error_hint(url, code)
}

/// The gateway's view of AnythingLLM: its configuration, from which every
/// request URL and header is derived.
#[derive(Clone)]
pub struct AnythingLlmServer {
    pub config: ServerConfig,
}

impl AnythingLlmServer {
    /// A server for the given configuration.
    pub fn new(config: ServerConfig) -> (r: Self)
        ensures
            r.config == config,
    {
        AnythingLlmServer { config }
    }

    /// The full URL of API path `path`: the base URL, `/api`, then the path.
    pub fn api_url(&self, path: &str) -> (r: String)
        ensures
            r@ == self.config.anythingllm_base_url@ + "/api"@ + path@,
    {
        let mut s = self.config.anythingllm_base_url.clone();
        push_str(&mut s, "/api");
        push_str(&mut s, path);
        s
    }

    /// The `Authorization` header value: `Bearer ` followed by the API key.
    pub fn auth_header(&self) -> (r: String)
        ensures
            r@ == "Bearer "@ + self.config.anythingllm_api_key@,
    {
        let mut s = "Bearer ".to_owned();
        push_str(&mut s, self.config.anythingllm_api_key.as_str());
        s
    }

    /// The failure reported when tool `tool` got status `status` with body
    /// `body` from `url`; refused keys (401, 403) come with troubleshooting
    /// steps.
    pub fn check_api_response(&self, tool: &str, url: &str, status: HttpStatus, body: String) -> (r: ToolFailure)
        ensures
            r.tool@ == tool@,
            r.reason@ == api_error_reason(url@, status@, body@),
    {
        let code = status.as_u16();
        let mut reason = "AnythingLLM API error (".to_owned();
        let st = status_to_string(status);
        push_str(&mut reason, st.as_str());
        push_str(&mut reason, "): ");
        push_str(&mut reason, body.as_str());
        if code == 401 || code == 403 {
            push_str(
                &mut reason,
                "\n\n  REASON: The API key sent by this MCP was rejected by AnythingLLM.\n  URL: ",
            );
            push_str(&mut reason, url);
            push_str(
                &mut reason,
                "\n  \
                 TROUBLESHOOTING:\n  \
                 1. Verify the key in envs/_shared/auth.env (ANYTHINGLLM_API_KEY) matches a key\n  \
                    in the AnythingLLM api_keys table:\n  \
                    sqlite3 volumes/anythingllm/storage/anythingllm.db\n  \
                      \"SELECT secret, name FROM api_keys;\"\n  \
                 2. If missing, add the key from auth.env to the table:\n  \
                    sqlite3 volumes/anythingllm/storage/anythingllm.db\n  \
                      \"INSERT INTO api_keys (secret, createdAt, lastUpdatedAt, name)\n  \
                       VALUES ('<key>', strftime('%%s','now')||'000',\n  \
                               strftime('%%s','now')||'000', 'liberado-anythingllm-mcp');\"\n  \
                 3. Restart the anythingllm container if the key still doesn't work.",
            );
        } else {
            push_str(&mut reason, "\n\n  URL: ");
            push_str(&mut reason, url);
        }
        ToolFailure { tool: tool.to_owned(), reason }
    }

    /// The outcome of a request that AnythingLLM answered: the body on a 2xx
    /// status, the failure `check_api_response` describes otherwise.
    pub fn finish_response(&self, tool: &str, url: &str, status: HttpStatus, body: String) -> (r: Result<String, ToolFailure>)
        ensures
            200 <= status@ < 300 ==> (r matches Ok(b) && b@ == body@),
            !(200 <= status@ < 300) ==> (r matches Err(f) && f.tool@ == tool@ && f.reason@
                == api_error_reason(url@, status@, body@)),
    {
        if status.is_success() {
            Ok(body)
        } else {
            Err(self.check_api_response(tool, url, status, body))
        }
    }
}


/// The value of one top-level field of a JSON request body.
#[derive(Debug, Clone)]
pub enum JsonField {
    Str(String),
    UInt(u32),
    /// An array of strings.
    Strings(Vec<String>),
    /// An object whose values are strings, fields in order.
    Object(Vec<(String, String)>),
}

/// The mathematical content of a [`JsonField`].
pub enum JsonFieldView {
    Str(Seq<char>),
    UInt(u32),
    Strings(Seq<Seq<char>>),
    Object(Seq<(Seq<char>, Seq<char>)>),
}

impl View for JsonField {
    type V = JsonFieldView;

    open spec fn view(&self) -> JsonFieldView {
        match self {
            JsonField::Str(s) => JsonFieldView::Str(s@),
            JsonField::UInt(n) => JsonFieldView::UInt(*n),
            JsonField::Strings(v) => JsonFieldView::Strings(v@.map_values(|x: String| x@)),
            JsonField::Object(v) => JsonFieldView::Object(
                v@.map_values(|p: (String, String)| (p.0@, p.1@)),
            ),
        }
    }
}

/// A JSON object sent as a request body: its fields, in order.
#[derive(Debug, Clone)]
pub struct JsonBody {
    pub fields: Vec<(String, JsonField)>,
}

impl View for JsonBody {
    type V = Seq<(Seq<char>, JsonFieldView)>;

    open spec fn view(&self) -> Seq<(Seq<char>, JsonFieldView)> {
        self.fields@.map_values(|p: (String, JsonField)| (p.0@, p.1@))
    }
}

/// Appends a string-valued field.
fn add_str_field(body: &mut JsonBody, key: &str, value: String)
    ensures
        final(body)@ == old(body)@.push((key@, JsonFieldView::Str(value@))),
{
    body.fields.push((key.to_owned(), JsonField::Str(value)));
    assert(body@ =~= old(body)@.push((key@, JsonFieldView::Str(value@))));
}

/// Appends a field holding a string-valued object.
fn add_object_field(body: &mut JsonBody, key: &str, value: Vec<(String, String)>)
    ensures
        final(body)@ == old(body)@.push(
            (key@, JsonFieldView::Object(value@.map_values(|p: (String, String)| (p.0@, p.1@)))),
        ),
{
    let ghost v = value@;
    body.fields.push((key.to_owned(), JsonField::Object(value)));
    assert(body@ =~= old(body)@.push(
        (key@, JsonFieldView::Object(v.map_values(|p: (String, String)| (p.0@, p.1@)))),
    ));
}

/// Appends a field holding an unsigned number.
fn add_uint_field(body: &mut JsonBody, key: &str, value: u32)
    ensures
        final(body)@ == old(body)@.push((key@, JsonFieldView::UInt(value))),
{
    body.fields.push((key.to_owned(), JsonField::UInt(value)));
    assert(body@ =~= old(body)@.push((key@, JsonFieldView::UInt(value))));
}

/// Appends a field holding an array of strings.
fn add_strings_field(body: &mut JsonBody, key: &str, value: Vec<String>)
    ensures
        final(body)@ == old(body)@.push(
            (key@, JsonFieldView::Strings(value@.map_values(|x: String| x@))),
        ),
{
    let ghost v = value@;
    body.fields.push((key.to_owned(), JsonField::Strings(value)));
    assert(body@ =~= old(body)@.push(
        (key@, JsonFieldView::Strings(v.map_values(|x: String| x@))),
    ));
}

/// The value that the fields from index `i` on give `key`: that of the
/// first of them named `key`.
pub open spec fn field_from(fields: Seq<(Seq<char>, JsonFieldView)>, key: Seq<char>, i: nat) -> Option<
    JsonFieldView,
>
    decreases fields.len() - i,
{
    if i >= fields.len() {
        None
    } else if fields[i as int].0 == key {
        Some(fields[i as int].1)
    } else {
        field_from(fields, key, i + 1)
    }
}

/// The value a request body gives `key`: that of its first field named `key`.
pub open spec fn body_field(fields: Seq<(Seq<char>, JsonFieldView)>, key: Seq<char>) -> Option<JsonFieldView> {
    field_from(fields, key, 0)
}

/// The keys of a request body, in order.
pub open spec fn body_keys(fields: Seq<(Seq<char>, JsonFieldView)>) -> Seq<Seq<char>> {
    fields.map_values(|p: (Seq<char>, JsonFieldView)| p.0)
}

/// The body that ingests raw text: `textContent`, `metadata` (`title`, then
/// `description` when one is given) and `addToWorkspaces`.
pub open spec fn ingest_text_body_spec(
    text: Seq<char>,
    title: Seq<char>,
    workspace: Seq<char>,
    description: Option<Seq<char>>,
) -> Seq<(Seq<char>, JsonFieldView)> {
    let metadata = match description {
        Some(d) => seq![("title"@, title), ("description"@, d)],
        None => seq![("title"@, title)],
    };
    seq![
        ("textContent"@, JsonFieldView::Str(text)),
        ("metadata"@, JsonFieldView::Object(metadata)),
        ("addToWorkspaces"@, JsonFieldView::Str(workspace)),
    ]
}

/// Builds the body that ingests raw text into a workspace.
pub fn ingest_text_body(text: String, title: String, workspace: String, description: Option<String>) -> (r: JsonBody)
    ensures
        body_field(r@, "textContent"@) == Some(JsonFieldView::Str(text@)),
        body_field(r@, "addToWorkspaces"@) == Some(JsonFieldView::Str(workspace@)),
        r@ == ingest_text_body_spec(
            text@,
            title@,
            workspace@,
            match description {
                Some(d) => Some(d@),
                None => None,
            },
        ),
{
    let mut metadata: Vec<(String, String)> = Vec::new();
    metadata.push(("title".to_owned(), title));
    let ghost d = description;
    match description {
        Some(desc) => metadata.push(("description".to_owned(), desc)),
        None => {},
    }
    let ghost m = metadata@.map_values(|p: (String, String)| (p.0@, p.1@));
    assert(m =~= match d {
        Some(x) => seq![("title"@, title@), ("description"@, x@)],
        None => seq![("title"@, title@)],
    });
    let mut body = JsonBody { fields: Vec::new() };
    add_str_field(&mut body, "textContent", text);
    add_object_field(&mut body, "metadata", metadata);
    add_str_field(&mut body, "addToWorkspaces", workspace);
    assert(body@ =~= ingest_text_body_spec(
        text@,
        title@,
        workspace@,
        match d {
            Some(x) => Some(x@),
            None => None,
        },
    ));
    proof {
        lemma_ingest_text_body_fields(
            text@,
            title@,
            workspace@,
            match d {
                Some(x) => Some(x@),
                None => None,
            },
        );
    }
    body
}

/// The body that ingests a URL: `link`, `addToWorkspaces`, then `metadata`
/// with the `title` when one is given.
pub open spec fn ingest_url_body_spec(url: Seq<char>, workspace: Seq<char>, title: Option<Seq<char>>) -> Seq<
    (Seq<char>, JsonFieldView),
> {
    let base = seq![("link"@, JsonFieldView::Str(url)), ("addToWorkspaces"@, JsonFieldView::Str(workspace))];
    match title {
        Some(t) => base.push(("metadata"@, JsonFieldView::Object(seq![("title"@, t)]))),
        None => base,
    }
}

/// Builds the body that ingests a URL into a workspace.
pub fn ingest_url_body(url: String, workspace: String, title: Option<String>) -> (r: JsonBody)
    ensures
        body_field(r@, "link"@) == Some(JsonFieldView::Str(url@)),
        body_field(r@, "addToWorkspaces"@) == Some(JsonFieldView::Str(workspace@)),
        r@ == ingest_url_body_spec(
            url@,
            workspace@,
            match title {
                Some(t) => Some(t@),
                None => None,
            },
        ),
{
    let ghost given = title;
    let ghost (uv, wv) = (url@, workspace@);
    let mut body = JsonBody { fields: Vec::new() };
    add_str_field(&mut body, "link", url);
    add_str_field(&mut body, "addToWorkspaces", workspace);
    match title {
        Some(t) => {
            let ghost tv = t@;
            let mut metadata: Vec<(String, String)> = Vec::new();
            metadata.push(("title".to_owned(), t));
            assert(metadata@.map_values(|p: (String, String)| (p.0@, p.1@)) =~= seq![
                ("title"@, tv),
            ]);
            add_object_field(&mut body, "metadata", metadata);
        },
        None => {},
    }
    proof {
        let tv = match given {
            Some(t) => Some(t@),
            None => None,
        };
        assert(body@ =~= ingest_url_body_spec(uv, wv, tv));
        lemma_ingest_url_body_fields(uv, wv, tv);
    }
    body
}

/// Builds the body that creates a workspace named `name`.
pub fn create_workspace_body(name: String) -> (r: JsonBody)
    ensures
        r@ == seq![("name"@, JsonFieldView::Str(name@))],
{
    let mut body = JsonBody { fields: Vec::new() };
    add_str_field(&mut body, "name", name);
    body
}

/// The body of a vector search: `query`, then `topN` when one is given.
pub open spec fn search_body_spec(query: Seq<char>, top_n: Option<u32>) -> Seq<(Seq<char>, JsonFieldView)> {
    match top_n {
        Some(n) => seq![("query"@, JsonFieldView::Str(query)), ("topN"@, JsonFieldView::UInt(n))],
        None => seq![("query"@, JsonFieldView::Str(query))],
    }
}

/// Builds the body of a vector search. A score threshold, being a float, is
/// added to the body where the request is sent.
pub fn search_body(query: String, top_n: Option<u32>) -> (r: JsonBody)
    ensures
        body_field(r@, "query"@) == Some(JsonFieldView::Str(query@)),
        r@ == search_body_spec(query@, top_n),
{
    let mut body = JsonBody { fields: Vec::new() };
    add_str_field(&mut body, "query", query);
    match top_n {
        Some(n) => {
            add_uint_field(&mut body, "topN", n);
        },
        None => {},
    }
    assert(body@ =~= search_body_spec(query@, top_n));
    proof {
        lemma_search_body_fields(query@, top_n);
    }
    body
}

/// Builds the body that removes document `docpath` from a workspace:
/// nothing in `adds`, the docpath alone in `deletes`.
pub fn delete_document_body(docpath: String) -> (r: JsonBody)
    ensures
        r@ == seq![
            ("adds"@, JsonFieldView::Strings(Seq::<Seq<char>>::empty())),
            ("deletes"@, JsonFieldView::Strings(seq![docpath@])),
        ],
{
    let ghost dv = docpath@;
    let mut deletes: Vec<String> = Vec::new();
    deletes.push(docpath);
    assert(deletes@.map_values(|x: String| x@) =~= seq![dv]);
    let adds: Vec<String> = Vec::new();
    assert(adds@.map_values(|x: String| x@) =~= Seq::<Seq<char>>::empty());
    let mut body = JsonBody { fields: Vec::new() };
    add_strings_field(&mut body, "adds", adds);
    add_strings_field(&mut body, "deletes", deletes);
    assert(body@ =~= seq![
        ("adds"@, JsonFieldView::Strings(Seq::<Seq<char>>::empty())),
        ("deletes"@, JsonFieldView::Strings(seq![dv])),
    ]);
    body
}

/// The API path of workspace `slug`.
pub fn workspace_path(slug: &str) -> (r: String)
    ensures
        r@ == "/v1/workspace/"@ + slug@,
{
    let mut s = "/v1/workspace/".to_owned();
    push_str(&mut s, slug);
    s
}

/// The API path of the vector search of workspace `slug`.
pub fn vector_search_path(slug: &str) -> (r: String)
    ensures
        r@ == "/v1/workspace/"@ + slug@ + "/vector-search"@,
{
    let mut s = workspace_path(slug);
    push_str(&mut s, "/vector-search");
    s
}

/// The API path that updates the embeddings of workspace `slug`.
pub fn update_embeddings_path(slug: &str) -> (r: String)
    ensures
        r@ == "/v1/workspace/"@ + slug@ + "/update-embeddings"@,
{
    let mut s = workspace_path(slug);
    push_str(&mut s, "/update-embeddings");
    s
}

/// The result text of a successful text ingestion.
pub fn ingest_text_message(workspace: &str, response_text: &str) -> (r: String)
    ensures
        r@ == "Successfully ingested text into workspace '"@ + workspace@ + "'.\n\nResponse: "@
            + response_text@,
{
    let mut s = "Successfully ingested text into workspace '".to_owned();
    push_str(&mut s, workspace);
    push_str(&mut s, "'.\n\nResponse: ");
    push_str(&mut s, response_text);
    s
}

/// The result text of a successful URL ingestion.
pub fn ingest_url_message(url: &str, workspace: &str, response_text: &str) -> (r: String)
    ensures
        r@ == "Successfully ingested URL '"@ + url@ + "' into workspace '"@ + workspace@
            + "'.\n\nResponse: "@ + response_text@,
{
    let mut s = "Successfully ingested URL '".to_owned();
    push_str(&mut s, url);
    push_str(&mut s, "' into workspace '");
    push_str(&mut s, workspace);
    push_str(&mut s, "'.\n\nResponse: ");
    push_str(&mut s, response_text);
    s
}

/// The result text of a successful document deletion.
pub fn delete_document_message(slug: &str, response_text: &str) -> (r: String)
    ensures
        r@ == "Successfully deleted document from workspace '"@ + slug@ + "'.\n\nResponse: "@
            + response_text@,
{
    let mut s = "Successfully deleted document from workspace '".to_owned();
    push_str(&mut s, slug);
    push_str(&mut s, "'.\n\nResponse: ");
    push_str(&mut s, response_text);
    s
}

/// The result text of a successful file ingestion.
pub fn ingest_file_message(filename: &str, workspace: &str, response_text: &str) -> (r: String)
    ensures
        r@ == "Successfully ingested file '"@ + filename@ + "' into workspace '"@ + workspace@
            + "'.\n\nResponse: "@ + response_text@,
{
    let mut s = "Successfully ingested file '".to_owned();
    push_str(&mut s, filename);
    push_str(&mut s, "' into workspace '");
    push_str(&mut s, workspace);
    push_str(&mut s, "'.\n\nResponse: ");
    push_str(&mut s, response_text);
    s
}

/// A decoded file ready to be uploaded.
#[derive(Debug, Clone)]
pub struct FileUpload {
    pub bytes: Vec<u8>,
    pub mime_type: String,
    pub file_name: String,
    /// The document title sent in the upload's metadata.
    pub title: String,
}

/// Decodes the file input of an upload and settles its title (the file name
/// when none is given).
pub fn prepare_file_upload(file_data: &str, filename: String, title: Option<String>) -> (r: Result<FileUpload, InputError>)
    ensures
        match spec_parse_file_input(file_data.spec_bytes()) {
            Ok((d, m)) => r matches Ok(u) && u.bytes@ == d && u.mime_type@ == m && u.file_name@
                == filename@ && u.title@ == (match title {
                Some(t) => t@,
                None => filename@,
            }),
            Err(ev) => r matches Err(e) && e@ == ev,
        },
{
    let (bytes, mime_type) = match parse_file_input(file_data) {
        Ok(p) => p,
        Err(e) => return Err(e),
    };
    let doc_title = match title {
        Some(t) => t,
        None => filename.clone(),
    };
    Ok(FileUpload { bytes, mime_type, file_name: filename, title: doc_title })
}


/// The body that ingests text sends the text itself as `textContent` and
/// the target workspace as `addToWorkspaces`, with the title (then the
/// description, when one is given) under `metadata`, and no other field.
pub proof fn lemma_ingest_text_body_fields(
    text: Seq<char>,
    title: Seq<char>,
    workspace: Seq<char>,
    description: Option<Seq<char>>,
)
    ensures
        body_keys(ingest_text_body_spec(text, title, workspace, description)) == seq![
            "textContent"@,
            "metadata"@,
            "addToWorkspaces"@,
        ],
        body_field(ingest_text_body_spec(text, title, workspace, description), "textContent"@) == Some(
            JsonFieldView::Str(text),
        ),
        body_field(ingest_text_body_spec(text, title, workspace, description), "addToWorkspaces"@)
            == Some(JsonFieldView::Str(workspace)),
        body_field(ingest_text_body_spec(text, title, workspace, description), "metadata"@) == Some(
            JsonFieldView::Object(
                match description {
                    Some(d) => seq![("title"@, title), ("description"@, d)],
                    None => seq![("title"@, title)],
                },
            ),
        ),
{
    reveal_strlit("textContent");
    reveal_strlit("metadata");
    reveal_strlit("addToWorkspaces");
    let b = ingest_text_body_spec(text, title, workspace, description);
    assert(body_keys(b) =~= seq!["textContent"@, "metadata"@, "addToWorkspaces"@]);
    assert("textContent"@.len() == 11 && "metadata"@.len() == 8 && "addToWorkspaces"@.len() == 15);
    assert(field_from(b, "metadata"@, 1) == Some(b[1].1));
    assert(field_from(b, "addToWorkspaces"@, 2) == Some(b[2].1));
    assert(field_from(b, "addToWorkspaces"@, 1) == field_from(b, "addToWorkspaces"@, 2));
}

/// The body that ingests a URL sends the URL itself as `link` and the target
/// workspace as `addToWorkspaces`; it has `metadata` with the title exactly
/// when a title is given.
pub proof fn lemma_ingest_url_body_fields(url: Seq<char>, workspace: Seq<char>, title: Option<Seq<char>>)
    ensures
        body_field(ingest_url_body_spec(url, workspace, title), "link"@) == Some(JsonFieldView::Str(url)),
        body_field(ingest_url_body_spec(url, workspace, title), "addToWorkspaces"@) == Some(
            JsonFieldView::Str(workspace),
        ),
        body_field(ingest_url_body_spec(url, workspace, title), "metadata"@) == match title {
            Some(t) => Some(JsonFieldView::Object(seq![("title"@, t)])),
            None => None,
        },
        body_keys(ingest_url_body_spec(url, workspace, title)) == match title {
            Some(_) => seq!["link"@, "addToWorkspaces"@, "metadata"@],
            None => seq!["link"@, "addToWorkspaces"@],
        },
{
    reveal_strlit("link");
    reveal_strlit("metadata");
    reveal_strlit("addToWorkspaces");
    let b = ingest_url_body_spec(url, workspace, title);
    assert("link"@.len() == 4 && "metadata"@.len() == 8 && "addToWorkspaces"@.len() == 15);
    assert(field_from(b, "addToWorkspaces"@, 1) == Some(b[1].1));
    match title {
        Some(t) => {
            assert(body_keys(b) =~= seq!["link"@, "addToWorkspaces"@, "metadata"@]);
            assert(field_from(b, "metadata"@, 2) == Some(b[2].1));
            assert(field_from(b, "metadata"@, 1) == field_from(b, "metadata"@, 2));
        },
        None => {
            assert(body_keys(b) =~= seq!["link"@, "addToWorkspaces"@]);
            assert(field_from(b, "metadata"@, 2) == None::<JsonFieldView>);
            assert(field_from(b, "metadata"@, 1) == field_from(b, "metadata"@, 2));
        },
    }
}

/// The body of a vector search sends the query itself as `query`, and
/// `topN` exactly when a result count is given.
pub proof fn lemma_search_body_fields(query: Seq<char>, top_n: Option<u32>)
    ensures
        body_field(search_body_spec(query, top_n), "query"@) == Some(JsonFieldView::Str(query)),
        body_field(search_body_spec(query, top_n), "topN"@) == match top_n {
            Some(n) => Some(JsonFieldView::UInt(n)),
            None => None,
        },
{
    reveal_strlit("query");
    reveal_strlit("topN");
    let b = search_body_spec(query, top_n);
    assert("query"@.len() == 5 && "topN"@.len() == 4);
    match top_n {
        Some(n) => {
            assert(field_from(b, "topN"@, 1) == Some(b[1].1));
        },
        None => {
            assert(field_from(b, "topN"@, 1) == None::<JsonFieldView>);
        },
    }
    assert(field_from(b, "topN"@, 0) == field_from(b, "topN"@, 1));
}

/// An error reply names the status (code and reason phrase) and carries the
/// reply's body; the steps for a refused API key are added exactly when the
/// status is 401 or 403, and every other error gives only the URL.
pub proof fn lemma_auth_steps_only_for_refused_keys(url: Seq<char>, code: u16, body: Seq<char>)
    ensures
        (code == 401 || code == 403) ==> api_error_reason(url, code, body) == "AnythingLLM API error ("@
            + decimal(code as nat) + " "@ + match canonical_reason_phrase(code) {
            Some(p) => p,
            None => "<unknown status code>"@,
        } + "): "@ + body + auth_hint_head() + url + auth_hint_tail(),
        !(code == 401 || code == 403) ==> api_error_reason(url, code, body) == "AnythingLLM API error ("@
            + decimal(code as nat) + " "@ + match canonical_reason_phrase(code) {
            Some(p) => p,
            None => "<unknown status code>"@,
        } + "): "@ + body + "\n\n  URL: "@ + url,
{
}

} // verus!
